use vstd::prelude::*;

use crate::paths::StoragePath;
use crate::text::{chars_of, decimal, i64_to_decimal, parse_i64, parse_i64_spec, push_char, string_from_chars};

verus! {

/// The directory that holds the dictation history: the application data
/// directory itself.
pub fn get_history_dir(app_data_dir: &StoragePath) -> (p: StoragePath)
    ensures
        p.parts() == app_data_dir.parts(),
{
    StoragePath::from_components(app_data_dir.components.clone())
}

/// The directory of the recordings kept with history records.
pub fn get_audio_dir(app_data_dir: &StoragePath) -> (p: StoragePath)
    ensures
        p.parts() == app_data_dir.parts().push("history"@).push("audio"@),
{
    get_history_dir(app_data_dir).join("history").join("audio")
}

/// The history database file.
pub fn get_db_path(app_data_dir: &StoragePath) -> (p: StoragePath)
    ensures
        p.parts() == app_data_dir.parts().push("history.db"@),
{
    get_history_dir(app_data_dir).join("history.db")
}

/// The file name of the recording of record `id`: its number and ".wav".
pub open spec fn audio_name(id: int) -> Seq<char> {
    decimal(id) + ".wav"@
}

/// The file name of the recording of record `id`.
pub fn audio_file_name(id: i64) -> (name: String)
    ensures
        name@ == audio_name(id as int),
{
    let mut name = i64_to_decimal(id);
    let ghost before = name@;
    push_char(&mut name, '.');
    push_char(&mut name, 'w');
    push_char(&mut name, 'a');
    push_char(&mut name, 'v');
    proof {
        reveal_strlit(".wav");
        assert(name@ =~= before + ".wav"@);
    }
    name
}

/// Index of the last '.' in a file name, if any.
pub open spec fn last_dot(name: Seq<char>) -> Option<int>
    decreases name.len(),
{
    if name.len() == 0 {
        None
    } else if name.last() == '.' {
        Some(name.len() - 1)
    } else {
        last_dot(name.drop_last())
    }
}

/// The stem and extension of a file name as `Path::file_stem` and
/// `Path::extension` give them: split at the last '.', unless there is
/// none or it is the first character (then there is no extension).
pub open spec fn stem_and_extension(name: Seq<char>) -> (Seq<char>, Option<Seq<char>>) {
    match last_dot(name) {
        Some(k) => if k > 0 {
            (name.take(k), Some(name.skip(k + 1)))
        } else {
            (name, None)
        },
        None => (name, None),
    }
}

/// The record a file of the audio directory belongs to: files named by a
/// number with the extension "wav".
pub open spec fn record_of_file(name: Seq<char>) -> Option<int> {
    let (stem, ext) = stem_and_extension(name);
    if ext == Some("wav"@) {
        parse_i64_spec(stem)
    } else {
        None
    }
}

fn find_last_dot(cs: &Vec<char>) -> (r: Option<usize>)
    ensures
        match r {
            Some(k) => last_dot(cs@) == Some(k as int) && k < cs@.len(),
            None => last_dot(cs@) is None,
        },
{
    let mut i: usize = cs.len();
    proof {
        assert(cs@.take(cs@.len() as int) =~= cs@);
    }
    while i > 0
        invariant
            i <= cs@.len(),
            last_dot(cs@) == last_dot(cs@.take(i as int)),
        decreases i,
    {
        proof {
            assert(cs@.take(i as int).drop_last() =~= cs@.take(i - 1));
        }
        if cs[i - 1] == '.' {
            return Some(i - 1);
        }
        i = i - 1;
    }
    None
}

/// The record that an audio file belongs to, if its name is a record
/// number with the extension "wav".
pub fn record_id_of_audio_file(name: &str) -> (r: Option<i64>)
    ensures
        match r {
            Some(id) => record_of_file(name@) == Some(id as int),
            None => record_of_file(name@) is None,
        },
{
    let cs = chars_of(name);
    proof {
        assert(cs@.take(cs@.len() as int) =~= cs@);
    }
    match find_last_dot(&cs) {
        Some(k) => {
            if k == 0 {
                return None;
            }
            if cs.len() - k - 1 != 3 || cs[k + 1] != 'w' || cs[k + 2] != 'a' || cs[k + 3] != 'v' {
                proof {
                    reveal_strlit("wav");
                    assert(stem_and_extension(name@).1 == Some(cs@.skip(k + 1)));
                    if cs@.skip(k + 1) == "wav"@ {
                        assert("wav"@.len() == 3);
                        assert(cs@.skip(k + 1).len() == 3);
                        assert(cs@.skip(k + 1)[0] == 'w');
                        assert(cs@.skip(k + 1)[1] == 'a');
                        assert(cs@.skip(k + 1)[2] == 'v');
                        assert(cs@[k + 1] == 'w');
                        assert(false);
                    }
                    assert(record_of_file(name@) is None);
                }
                return None;
            }
            proof {
                reveal_strlit("wav");
                assert(cs@.skip(k + 1) =~= "wav"@);
            }
            let stem_chars = crate::text::take_chars(&cs, k);
            let stem = string_from_chars(stem_chars.as_slice());
            proof {
                assert(stem@ =~= cs@.take(k as int));
            }
            parse_i64(stem.as_str())
        },
        None => None,
    }
}

/// Whether `id` occurs in `ids`.
pub fn contains_id(ids: &Vec<i64>, id: i64) -> (r: bool)
    ensures
        r == ids@.contains(id),
{
    let mut i: usize = 0;
    while i < ids.len()
        invariant
            i <= ids@.len(),
            forall|k: int| 0 <= k < i ==> ids@[k] != id,
        decreases ids@.len() - i,
    {
        if ids[i] == id {
            return true;
        }
        i = i + 1;
    }
    false
}

/// A file named as the recording of a record that does not exist.
pub open spec fn is_orphan(name: Seq<char>, record_ids: Seq<i64>) -> bool {
    match record_of_file(name) {
        Some(id) => !record_ids.contains(id as i64),
        None => false,
    }
}

/// The files of the audio directory that belong to no record: named as
/// recordings, but of a record number not in `record_ids`.
pub fn orphan_audio_files(record_ids: &Vec<i64>, file_names: &Vec<String>) -> (orphans: Vec<String>)
    ensures
        orphans.deep_view() == file_names.deep_view().filter(|n: Seq<char>| is_orphan(n, record_ids@)),
        forall|n: Seq<char>| #[trigger] orphans.deep_view().contains(n) <==> (file_names.deep_view().contains(n)
            && is_orphan(n, record_ids@)),
{
    let mut orphans: Vec<String> = Vec::new();
    let mut i: usize = 0;
    while i < file_names.len()
        invariant
            i <= file_names@.len(),
            forall|n: Seq<char>| #[trigger] orphans.deep_view().contains(n) <==> (
                file_names.deep_view().take(i as int).contains(n) && is_orphan(n, record_ids@)),
            orphans.deep_view() == file_names.deep_view().take(i as int).filter(|n: Seq<char>| is_orphan(n, record_ids@)),
        decreases file_names@.len() - i,
    {
        let ghost before = orphans.deep_view();
        let ghost t = file_names.deep_view().take(i + 1);
        proof {
            assert(t =~= file_names.deep_view().take(i as int).push(file_names.deep_view()[i as int]));
            assert(t.drop_last() =~= file_names.deep_view().take(i as int));
            reveal_with_fuel(Seq::filter, 1);
            assert forall|n: Seq<char>| t.contains(n) <==> (file_names.deep_view().take(i as int).contains(n)
                || n == file_names.deep_view()[i as int]) by {
                if t.contains(n) {
                    let j = choose|j: int| 0 <= j < t.len() && t[j] == n;
                    if j < i {
                        assert(file_names.deep_view().take(i as int)[j] == n);
                    }
                }
                if file_names.deep_view().take(i as int).contains(n) {
                    let j = choose|j: int| 0 <= j < i && file_names.deep_view().take(i as int)[j] == n;
                    assert(t[j] == n);
                }
                assert(t[i as int] == file_names.deep_view()[i as int]);
            }
        }
        match record_id_of_audio_file(file_names[i].as_str()) {
            Some(id) => {
                if !contains_id(record_ids, id) {
                    orphans.push(file_names[i].clone());
                    proof {
                        assert(orphans.deep_view() =~= before.push(file_names.deep_view()[i as int]));
                        assert forall|n: Seq<char>| #[trigger] orphans.deep_view().contains(n) <==> (before.contains(n)
                            || n == file_names.deep_view()[i as int]) by {
                            if orphans.deep_view().contains(n) {
                                let j = choose|j: int| 0 <= j < orphans.deep_view().len() && orphans.deep_view()[j] == n;
                                if j < before.len() {
                                    assert(before[j] == n);
                                }
                            }
                            if before.contains(n) {
                                let j = choose|j: int| 0 <= j < before.len() && before[j] == n;
                                assert(orphans.deep_view()[j] == n);
                            }
                            assert(orphans.deep_view()[before.len() as int] == file_names.deep_view()[i as int]);
                        }
                    }
                }
            },
            None => {},
        }
        i = i + 1;
    }
    proof {
        assert(file_names.deep_view().take(file_names@.len() as int) =~= file_names.deep_view());
    }
    orphans
}

/// The ids of `ids` whose flag in `has_audio` (same positions) is off,
/// in order.
pub open spec fn ids_without_audio(ids: Seq<i64>, has_audio: Seq<bool>) -> Seq<i64>
    decreases ids.len(),
{
    if ids.len() == 0 {
        Seq::<i64>::empty()
    } else {
        let rest = ids_without_audio(ids.drop_last(), has_audio.take(ids.len() - 1));
        if has_audio[ids.len() - 1] {
            rest
        } else {
            rest.push(ids.last())
        }
    }
}

/// The records whose recording is missing, given for each record (in the
/// order of `record_ids`) whether its audio file exists.
pub fn records_without_audio(record_ids: &Vec<i64>, has_audio: &Vec<bool>) -> (missing: Vec<i64>)
    requires
        has_audio@.len() == record_ids@.len(),
    ensures
        missing@ == ids_without_audio(record_ids@, has_audio@),
        forall|id: i64| #[trigger] missing@.contains(id) ==> record_ids@.contains(id),
        forall|k: int| 0 <= k < record_ids@.len() && !has_audio@[k] ==> #[trigger] missing@.contains(
            record_ids@[k]),
        forall|id: i64| #[trigger] missing@.contains(id) ==> exists|k: int| 0 <= k < record_ids@.len()
            && record_ids@[k] == id && !has_audio@[k],
{
    let mut missing: Vec<i64> = Vec::new();
    let mut i: usize = 0;
    while i < record_ids.len()
        invariant
            i <= record_ids@.len(),
            has_audio@.len() == record_ids@.len(),
            forall|id: i64| #[trigger] missing@.contains(id) ==> exists|k: int| 0 <= k < i
                && record_ids@[k] == id && !has_audio@[k],
            forall|k: int| 0 <= k < i && !has_audio@[k] ==> #[trigger] missing@.contains(record_ids@[k]),
            missing@ == ids_without_audio(record_ids@.take(i as int), has_audio@.take(i as int)),
        decreases record_ids@.len() - i,
    {
        proof {
            assert(record_ids@.take(i + 1).drop_last() =~= record_ids@.take(i as int));
            assert(has_audio@.take(i + 1).take(i as int) =~= has_audio@.take(i as int));
        }
        if !has_audio[i] {
            let ghost before = missing@;
            missing.push(record_ids[i]);
            proof {
                assert(missing@[before.len() as int] == record_ids@[i as int]);
                assert forall|id: i64| #[trigger] missing@.contains(id) implies exists|k: int| 0 <= k < i + 1
                    && record_ids@[k] == id && !has_audio@[k] by {
                    let j = choose|j: int| 0 <= j < missing@.len() && missing@[j] == id;
                    if j < before.len() {
                        assert(before[j] == id);
                        assert(before.contains(id));
                    }
                }
                assert forall|k: int| 0 <= k < i + 1 && !has_audio@[k] implies #[trigger] missing@.contains(
                    record_ids@[k]) by {
                    if k < i {
                        assert(before.contains(record_ids@[k]));
                        let j = choose|j: int| 0 <= j < before.len() && before[j] == record_ids@[k];
                        assert(missing@[j] == record_ids@[k]);
                    }
                }
            }
        }
        i = i + 1;
    }
    proof {
        assert(record_ids@.take(record_ids@.len() as int) =~= record_ids@);
        assert(has_audio@.take(has_audio@.len() as int) =~= has_audio@);
    }
    missing
}

} // verus!

verus! {

/// How many of the listed ids are greater than `id` (for distinct ids:
/// the position of `id` when they are sorted newest first).
pub open spec fn newer_count(ids: Seq<i64>, id: i64) -> nat {
    ids.filter(|x: i64| x > id).len()
}

/// A record falls outside the history limit when `limit` newer records
/// exist; a limit of zero means no limit is enforced.
pub open spec fn over_limit(ids: Seq<i64>, id: i64, limit: u32) -> bool {
    limit > 0 && newer_count(ids, id) >= limit
}

fn count_newer(ids: &Vec<i64>, id: i64) -> (n: usize)
    ensures
        n == newer_count(ids@, id),
{
    let mut n: usize = 0;
    let mut i: usize = 0;
    while i < ids.len()
        invariant
            i <= ids@.len(),
            n == ids@.take(i as int).filter(|x: i64| x > id).len(),
            n <= i,
        decreases ids@.len() - i,
    {
        proof {
            assert(ids@.take(i + 1).drop_last() =~= ids@.take(i as int));
            reveal_with_fuel(Seq::filter, 1);
        }
        if ids[i] > id {
            n = n + 1;
        }
        i = i + 1;
    }
    proof {
        assert(ids@.take(ids@.len() as int) =~= ids@);
    }
    n
}

/// The records to delete so that at most `limit` of the newest remain
/// (record ids grow with age, so the newest have the greatest ids); none
/// when the limit is zero.
pub fn enforce_limit(ids: &Vec<i64>, limit: u32) -> (to_delete: Vec<i64>)
    ensures
        to_delete@ == ids@.filter(|id: i64| over_limit(ids@, id, limit)),
{
    let mut out: Vec<i64> = Vec::new();
    if limit == 0 {
        proof {
            assert(ids@.filter(|id: i64| over_limit(ids@, id, limit)) =~= Seq::<i64>::empty()) by {
                lemma_filter_none(ids@, |id: i64| over_limit(ids@, id, limit));
            }
        }
        return out;
    }
    let mut i: usize = 0;
    while i < ids.len()
        invariant
            limit > 0,
            i <= ids@.len(),
            out@ == ids@.take(i as int).filter(|id: i64| over_limit(ids@, id, limit)),
        decreases ids@.len() - i,
    {
        proof {
            assert(ids@.take(i + 1).drop_last() =~= ids@.take(i as int));
            reveal_with_fuel(Seq::filter, 1);
        }
        let n = count_newer(ids, ids[i]);
        if n >= limit as usize {
            out.push(ids[i]);
        }
        i = i + 1;
    }
    proof {
        assert(ids@.take(ids@.len() as int) =~= ids@);
    }
    out
}

proof fn lemma_filter_none(s: Seq<i64>, f: spec_fn(i64) -> bool)
    requires
        forall|x: i64| !#[trigger] f(x),
    ensures
        s.filter(f) =~= Seq::<i64>::empty(),
    decreases s.len(),
{
    reveal_with_fuel(Seq::filter, 1);
    if s.len() > 0 {
        lemma_filter_none(s.drop_last(), f);
    }
}

/// Whether history is kept at all: a limit of zero turns it off.
pub fn history_enabled(limit: u32) -> (r: bool)
    ensures
        r == (limit > 0),
{
    limit > 0
}

/// The space taken by the history: the database file (when it exists)
/// and the files of the audio directory, in bytes.
pub fn history_size_bytes(db_size: Option<u64>, file_sizes: &Vec<u64>) -> (total: u64)
    requires
        (match db_size { Some(d) => d as int, None => 0 }) + file_sizes@.fold_left(0int, |acc: int, x: u64| acc + x)
            <= u64::MAX,
    ensures
        total == (match db_size { Some(d) => d as int, None => 0 }) + file_sizes@.fold_left(0int, |acc: int, x: u64| acc + x),
{
    let mut total: u64 = match db_size {
        Some(d) => d,
        None => 0,
    };
    let ghost base: int = total as int;
    let mut i: usize = 0;
    while i < file_sizes.len()
        invariant
            i <= file_sizes@.len(),
            base + file_sizes@.fold_left(0int, |acc: int, x: u64| acc + x) <= u64::MAX,
            total == base + file_sizes@.take(i as int).fold_left(0int, |acc: int, x: u64| acc + x),
            base >= 0,
        decreases file_sizes@.len() - i,
    {
        proof {
            assert(file_sizes@.take(i + 1).drop_last() =~= file_sizes@.take(i as int));
            lemma_fold_prefix_le(file_sizes@, i as int + 1);
        }
        total = total + file_sizes[i];
        i = i + 1;
    }
    proof {
        assert(file_sizes@.take(file_sizes@.len() as int) =~= file_sizes@);
    }
    total
}

proof fn lemma_fold_prefix_le(s: Seq<u64>, i: int)
    requires
        0 <= i <= s.len(),
    ensures
        s.take(i).fold_left(0int, |acc: int, x: u64| acc + x) <= s.fold_left(0int, |acc: int, x: u64| acc + x),
        s.take(i).fold_left(0int, |acc: int, x: u64| acc + x) >= 0,
    decreases s.len() - i,
{
    if i < s.len() {
        lemma_fold_prefix_le(s, i + 1);
        assert(s.take(i + 1).drop_last() =~= s.take(i));
    } else {
        assert(s.take(i) =~= s);
    }
    lemma_fold_nonneg(s.take(i));
}

proof fn lemma_fold_nonneg(s: Seq<u64>)
    ensures
        s.fold_left(0int, |acc: int, x: u64| acc + x) >= 0,
    decreases s.len(),
{
    if s.len() > 0 {
        lemma_fold_nonneg(s.drop_last());
    }
}

} // verus!

verus! {

proof fn lemma_newer_count_monotone(ids: Seq<i64>, a: i64, b: i64)
    requires
        a <= b,
    ensures
        newer_count(ids, a) >= newer_count(ids, b),
    decreases ids.len(),
{
    reveal_with_fuel(Seq::filter, 1);
    if ids.len() > 0 {
        lemma_newer_count_monotone(ids.drop_last(), a, b);
    }
}

/// Enforcing the history limit deletes only records older than every
/// record it keeps: the newest records are the ones that stay.
pub proof fn lemma_limit_keeps_newest(ids: Seq<i64>, limit: u32, kept: i64, deleted: i64)
    requires
        !over_limit(ids, kept, limit),
        over_limit(ids, deleted, limit),
    ensures
        kept > deleted,
{
    if kept <= deleted {
        lemma_newer_count_monotone(ids, kept, deleted);
    }
}

proof fn lemma_count_above_min(k: Seq<i64>, m: i64)
    requires
        k.no_duplicates(),
        k.contains(m),
        forall|i: int| 0 <= i < k.len() ==> m <= #[trigger] k[i],
    ensures
        k.filter(|x: i64| x > m).len() == k.len() - 1,
    decreases k.len(),
{
    reveal_with_fuel(Seq::filter, 1);
    let p = |x: i64| x > m;
    let d = k.drop_last();
    if k.last() == m {
        assert(!d.contains(m)) by {
            if d.contains(m) {
                let j = choose|j: int| 0 <= j < d.len() && d[j] == m;
                assert(k[j] == k[k.len() - 1]);
            }
        }
        assert forall|i: int| 0 <= i < d.len() implies m < #[trigger] d[i] by {
            assert(d[i] == k[i]);
            assert(k[i] != k[k.len() - 1]);
        }
        lemma_all_above(d, m);
    } else {
        assert(d.contains(m)) by {
            let j = choose|j: int| 0 <= j < k.len() && k[j] == m;
            assert(j != k.len() - 1);
            assert(d[j] == m);
        }
        assert(d.no_duplicates()) by {
            assert forall|i: int, j: int| 0 <= i < d.len() && 0 <= j < d.len() && i != j implies d[i] != d[j] by {
                assert(d[i] == k[i] && d[j] == k[j]);
            }
        }
        assert forall|i: int| 0 <= i < d.len() implies m <= #[trigger] d[i] by {
            assert(d[i] == k[i]);
        }
        lemma_count_above_min(d, m);
        assert(k.last() > m);
    }
}

proof fn lemma_all_above(d: Seq<i64>, m: i64)
    requires
        forall|i: int| 0 <= i < d.len() ==> m < #[trigger] d[i],
    ensures
        d.filter(|x: i64| x > m).len() == d.len(),
    decreases d.len(),
{
    reveal_with_fuel(Seq::filter, 1);
    if d.len() > 0 {
        assert forall|i: int| 0 <= i < d.drop_last().len() implies m < #[trigger] d.drop_last()[i] by {
            assert(d.drop_last()[i] == d[i]);
        }
        lemma_all_above(d.drop_last(), m);
        assert(d.last() > m);
    }
}

proof fn lemma_has_min(k: Seq<i64>) -> (m: i64)
    requires
        k.len() > 0,
    ensures
        k.contains(m),
        forall|i: int| 0 <= i < k.len() ==> m <= #[trigger] k[i],
    decreases k.len(),
{
    if k.len() == 1 {
        assert(k[0] == k[0]);
        k[0]
    } else {
        let d = k.drop_last();
        let m0 = lemma_has_min(d);
        let j = choose|j: int| 0 <= j < d.len() && d[j] == m0;
        assert(k[j] == m0);
        if k.last() < m0 {
            assert forall|i: int| 0 <= i < k.len() implies k.last() <= #[trigger] k[i] by {
                if i < k.len() - 1 {
                    assert(k[i] == d[i]);
                }
            }
            assert(k[k.len() - 1] == k.last());
            k.last()
        } else {
            assert forall|i: int| 0 <= i < k.len() implies m0 <= #[trigger] k[i] by {
                if i < k.len() - 1 {
                    assert(k[i] == d[i]);
                }
            }
            m0
        }
    }
}


proof fn lemma_filter_congruent(s: Seq<i64>, p: spec_fn(i64) -> bool, q: spec_fn(i64) -> bool)
    requires
        forall|i: int| 0 <= i < s.len() ==> p(#[trigger] s[i]) == q(s[i]),
    ensures
        s.filter(p) == s.filter(q),
    decreases s.len(),
{
    reveal_with_fuel(Seq::filter, 1);
    if s.len() > 0 {
        assert forall|i: int| 0 <= i < s.drop_last().len() implies p(#[trigger] s.drop_last()[i])
            == q(s.drop_last()[i]) by {
            assert(s.drop_last()[i] == s[i]);
        }
        lemma_filter_congruent(s.drop_last(), p, q);
        assert(p(s[s.len() - 1]) == q(s[s.len() - 1]));
    }
}

proof fn lemma_filter_single(m: i64, p: spec_fn(i64) -> bool)
    ensures
        seq![m].filter(p).len() == (if p(m) { 1int } else { 0int }),
{
    reveal_with_fuel(Seq::filter, 2);
    assert(seq![m].drop_last() =~= Seq::<i64>::empty());
    assert(seq![m].last() == m);
}

proof fn lemma_filter_len_split(a: Seq<i64>, m: i64, b: Seq<i64>, p: spec_fn(i64) -> bool)
    ensures
        (a + seq![m] + b).filter(p).len() == (a + b).filter(p).len() + (if p(m) { 1int } else { 0int }),
{
    Seq::filter_distributes_over_add(a + seq![m], b, p);
    Seq::filter_distributes_over_add(a, seq![m], p);
    Seq::filter_distributes_over_add(a, b, p);
    lemma_filter_single(m, p);
}

/// With distinct record ids, enforcing a positive limit keeps exactly
/// `limit` records, or all of them when there are fewer.
pub proof fn lemma_limit_kept_count(ids: Seq<i64>, limit: u32)
    requires
        ids.no_duplicates(),
        limit > 0,
    ensures
        ids.filter(|id: i64| !over_limit(ids, id, limit)).len() == (if ids.len() < limit { ids.len() as int } else { limit as int }),
    decreases ids.len(),
{
    let keep = |id: i64| !over_limit(ids, id, limit);
    if ids.len() == 0 {
        reveal_with_fuel(Seq::filter, 1);
        return;
    }
    let m = lemma_has_min(ids);
    let j = choose|j: int| 0 <= j < ids.len() && ids[j] == m;
    let a = ids.take(j);
    let b = ids.skip(j + 1);
    let rest = a + b;
    assert(ids =~= a + seq![m] + b);
    assert(rest.len() == ids.len() - 1);
    assert forall|i: int| 0 <= i < rest.len() implies m < #[trigger] rest[i] && ids.contains(rest[i]) by {
        if i < j {
            assert(rest[i] == ids[i]);
            assert(i != j);
        } else {
            assert(rest[i] == ids[i + 1]);
            assert(i + 1 != j);
        }
    }
    assert(rest.no_duplicates()) by {
        assert forall|x: int, y: int| 0 <= x < rest.len() && 0 <= y < rest.len() && x != y implies rest[x] != rest[y] by {
            let xi = if x < j { x } else { x + 1 };
            let yi = if y < j { y } else { y + 1 };
            assert(rest[x] == ids[xi]);
            assert(rest[y] == ids[yi]);
        }
    }
    let keep_rest = |id: i64| !over_limit(rest, id, limit);
    lemma_limit_kept_count(rest, limit);
    assert forall|i: int| 0 <= i < rest.len() implies keep(#[trigger] rest[i]) == keep_rest(rest[i]) by {
        let x = rest[i];
        lemma_filter_len_split(a, m, b, |y: i64| y > x);
        lemma_filter_single(m, |y: i64| y > x);
    }
    lemma_filter_congruent(rest, keep, keep_rest);
    lemma_filter_len_split(a, m, b, keep);
    lemma_count_above_min(ids, m);
}

} // verus!
