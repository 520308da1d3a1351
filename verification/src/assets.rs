//! The files embedded in the executable (fonts, icons, themes), looked up
//! by path such as `images/add.svg` or `themes/zed.json`.
use vstd::prelude::*;

use crate::text::{chars_of, starts_with, starts_with_at};

verus! {

#[derive(Debug)]
pub struct AssetFile {
    pub path: String,
    pub data: Vec<u8>,
}

/// The embedded files, in the order the embedding lists them.
#[derive(Debug)]
pub struct Assets {
    pub files: Vec<AssetFile>,
}

/// The contents of the first file at `path`.
pub open spec fn file_at(files: Seq<AssetFile>, path: Seq<char>) -> Option<Seq<u8>>
    decreases files.len(),
{
    if files.len() == 0 {
        None
    } else if files[0].path@ == path {
        Some(files[0].data@)
    } else {
        file_at(files.drop_first(), path)
    }
}

/// The paths of the first `n` files that start with `prefix`, in order.
pub open spec fn paths_with_prefix(files: Seq<AssetFile>, prefix: Seq<char>, n: int) -> Seq<Seq<char>>
    decreases n,
{
    if n <= 0 {
        Seq::empty()
    } else if starts_with(files[n - 1].path@, prefix) {
        paths_with_prefix(files, prefix, n - 1).push(files[n - 1].path@)
    } else {
        paths_with_prefix(files, prefix, n - 1)
    }
}

impl Assets {
    /// The contents of the file at `path`.
    pub fn get(&self, path: &str) -> (r: Option<&Vec<u8>>)
        ensures
            match r {
                Some(d) => file_at(self.files@, path@) == Some(d@),
                None => file_at(self.files@, path@) is None,
            },
    {
        let wanted = path.to_owned();
        let mut i: usize = 0;
        assert(self.files@.skip(0) == self.files@);
        while i < self.files.len()
            invariant
                0 <= i <= self.files.len(),
                wanted@ == path@,
                file_at(self.files@, path@) == file_at(self.files@.skip(i as int), path@),
            decreases self.files.len() - i,
        {
            assert(self.files@.skip(i as int)[0] == self.files@[i as int]);
            if self.files[i].path == wanted {
                return Some(&self.files[i].data);
            }
            assert(self.files@.skip(i as int).drop_first() == self.files@.skip(i + 1));
            i = i + 1;
        }
        None
    }

    /// What loading a path gives: nothing for the empty path, else the
    /// file there, if any.
    pub fn load(&self, path: &str) -> (r: Option<Vec<u8>>)
        ensures
            path@.len() == 0 ==> r is None,
            path@.len() > 0 ==> match r {
                Some(d) => file_at(self.files@, path@) == Some(d@),
                None => file_at(self.files@, path@) is None,
            },
    {
        if path.is_empty() {
            return None;
        }
        match self.get(path) {
            Some(data) => {
                let copy = data.clone();
                assert(copy@ =~= data@);
                Some(copy)
            },
            None => None,
        }
    }

    /// The paths of the files that start with `prefix`, in order.
    pub fn list(&self, prefix: &str) -> (r: Vec<String>)
        ensures
            r@.map_values(|p: String| p@) == paths_with_prefix(
                self.files@,
                prefix@,
                self.files@.len() as int,
            ),
    {
        let p = chars_of(prefix);
        let mut r: Vec<String> = Vec::new();
        let mut i: usize = 0;
        while i < self.files.len()
            invariant
                0 <= i <= self.files.len(),
                p@ == prefix@,
                r@.map_values(|p: String| p@) == paths_with_prefix(self.files@, prefix@, i as int),
            decreases self.files.len() - i,
        {
            let path = chars_of(self.files[i].path.as_str());
            assert(path@.skip(0) == path@);
            if starts_with_at(&path, 0, &p) {
                let ghost before = r@;
                r.push(self.files[i].path.clone());
                assert(r@.map_values(|p: String| p@) =~= before.map_values(|p: String| p@).push(
                    self.files@[i as int].path@,
                ));
            }
            i = i + 1;
        }
        r
    }
}

} // verus!
