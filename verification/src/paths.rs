use vstd::prelude::*;

verus! {

/// A file-system location as the sequence of its components, from the
/// root or base directory down.
#[derive(Debug)]
pub struct StoragePath {
    pub components: Vec<String>,
}

impl StoragePath {
    /// The view: the component names in order.
    pub open spec fn parts(&self) -> Seq<Seq<char>> {
        self.components.deep_view()
    }

    /// A location given by its components.
    pub fn from_components(components: Vec<String>) -> (p: Self)
        ensures
            p.parts() == components.deep_view(),
    {
        StoragePath { components }
    }

    /// The location of the entry `name` inside this one.
    pub fn join(&self, name: &str) -> (p: Self)
        ensures
            p.parts() == self.parts().push(name@),
    {
        let mut components: Vec<String> = Vec::new();
        let mut i: usize = 0;
        while i < self.components.len()
            invariant
                i <= self.components@.len(),
                components.deep_view() =~= self.parts().take(i as int),
            decreases self.components@.len() - i,
        {
            components.push(self.components[i].clone());
            proof {
                assert(self.parts().take(i as int).push(self.parts()[i as int]) =~= self.parts().take(i + 1));
            }
            i = i + 1;
        }
        components.push(name.to_owned());
        proof {
            assert(self.parts().take(self.components@.len() as int) =~= self.parts());
        }
        StoragePath { components }
    }
}

/// The directory that holds all of the application's files, inside the
/// user's local data directory.
pub fn get_app_data_dir(local_data_dir: &StoragePath) -> (p: StoragePath)
    ensures
        p.parts() == local_data_dir.parts().push("app.vispeak"@),
{
    local_data_dir.join("app.vispeak")
}

} // verus!
