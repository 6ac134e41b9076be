//! The relocator: carry a routing decision out against a directory tree.
//! The tree is modelled as the set of file paths and the set of directory
//! paths that exist, so the whole provision-then-move step is stated and
//! verified over it. The destination directory is created when missing;
//! creating it fails when a file already bears its name; the move fails
//! when the source is gone or the destination name is already taken (an
//! existing destination is an error, never overwritten).

use vstd::prelude::*;
use crate::paths::{
    path_set_of, lemma_path_set_finite, contains_path, push_path, remove_path, copy_bytes,
};

verus! {

/// Why a relocation failed. Either failure leaves the triggering file in
/// place and is recoverable: the engine logs it and goes on.
#[derive(Clone, Copy, Debug, PartialEq, Eq, Structural)]
pub enum RelocateError {
    /// The destination directory was missing and could not be created.
    DirectoryCreateFailed,
    /// The file could not be moved: the source no longer exists, or the
    /// destination name is already taken.
    MoveFailed,
}

/// A directory tree: which file paths and which directory paths exist.
pub struct FsModel {
    pub files: Vec<Vec<u8>>,
    pub dirs: Vec<Vec<u8>>,
}

/// Mathematical model of a directory tree: the set of existing file
/// paths and the set of existing directory paths.
#[verifier::ext_equal]
pub struct FsModelView {
    pub files: Set<Seq<u8>>,
    pub dirs: Set<Seq<u8>>,
}

impl View for FsModel {
    type V = FsModelView;

    open spec fn view(&self) -> FsModelView {
        FsModelView { files: path_set_of(self.files@), dirs: path_set_of(self.dirs@) }
    }
}

/// What relocating `src` to `dest` inside `dir` does to the tree `fs`:
/// first `dir` is created when missing (failing when a file bears its
/// name), then `src` is moved to `dest` (failing when `src` is gone or
/// `dest` is taken). A failed move still leaves a created `dir` behind,
/// as provisioning precedes the move.
pub open spec fn spec_relocate(fs: FsModelView, src: Seq<u8>, dir: Seq<u8>, dest: Seq<u8>) -> (
    FsModelView,
    Result<(), RelocateError>,
) {
    if !fs.dirs.contains(dir) && fs.files.contains(dir) {
        (fs, Err(RelocateError::DirectoryCreateFailed))
    } else {
        let provisioned = FsModelView { files: fs.files, dirs: fs.dirs.insert(dir) };
        if !provisioned.files.contains(src) || provisioned.files.contains(dest)
            || provisioned.dirs.contains(dest) {
            (provisioned, Err(RelocateError::MoveFailed))
        } else {
            (
                FsModelView {
                    files: provisioned.files.remove(src).insert(dest),
                    dirs: provisioned.dirs,
                },
                Ok(()),
            )
        }
    }
}

/// A directory tree holds finitely many files and directories.
pub proof fn lemma_fs_model_finite(fs: FsModel)
    ensures
        fs@.files.finite(),
        fs@.dirs.finite(),
{
    lemma_path_set_finite(fs.files@);
    lemma_path_set_finite(fs.dirs@);
}

impl FsModel {
    /// An empty tree.
    pub fn new() -> (r: FsModel)
        ensures
            r@.files == Set::<Seq<u8>>::empty(),
            r@.dirs == Set::<Seq<u8>>::empty(),
    {
        FsModel { files: Vec::new(), dirs: Vec::new() }
    }

    /// Record that a file exists at `p`.
    pub fn add_file(&mut self, p: Vec<u8>)
        ensures
            final(self)@.files == old(self)@.files.insert(p@),
            final(self)@.dirs == old(self)@.dirs,
    {
        push_path(&mut self.files, p);
    }

    /// Record that a directory exists at `p`.
    pub fn add_dir(&mut self, p: Vec<u8>)
        ensures
            final(self)@.files == old(self)@.files,
            final(self)@.dirs == old(self)@.dirs.insert(p@),
    {
        push_path(&mut self.dirs, p);
    }

    /// Whether a file exists at `p`.
    pub fn has_file(&self, p: &Vec<u8>) -> (r: bool)
        ensures
            r == self@.files.contains(p@),
    {
        contains_path(&self.files, p)
    }

    /// Whether a directory exists at `p`.
    pub fn has_dir(&self, p: &Vec<u8>) -> (r: bool)
        ensures
            r == self@.dirs.contains(p@),
    {
        contains_path(&self.dirs, p)
    }

    /// Record that the file at `p` is gone.
    pub fn remove_file(&mut self, p: &Vec<u8>)
        ensures
            final(self)@.files == old(self)@.files.remove(p@),
            final(self)@.dirs == old(self)@.dirs,
    {
        remove_path(&mut self.files, p);
    }

    /// Carry a routing decision out: create `dest_dir` when missing, then
    /// move the file at `source` to `dest_path`, as `spec_relocate` says.
    pub fn relocate(&mut self, source: &Vec<u8>, dest_dir: &Vec<u8>, dest_path: &Vec<u8>) -> (r:
        Result<(), RelocateError>)
        ensures
            final(self)@ == spec_relocate(old(self)@, source@, dest_dir@, dest_path@).0,
            r == spec_relocate(old(self)@, source@, dest_dir@, dest_path@).1,
    {
        if !self.has_dir(dest_dir) {
            if self.has_file(dest_dir) {
                return Err(RelocateError::DirectoryCreateFailed);
            }
            self.add_dir(copy_bytes(dest_dir));
        } else {
            proof {
                assert(self@.dirs =~= self@.dirs.insert(dest_dir@));
            }
        }
        if !self.has_file(source) || self.has_file(dest_path) || self.has_dir(dest_path) {
            return Err(RelocateError::MoveFailed);
        }
        self.remove_file(source);
        self.add_file(copy_bytes(dest_path));
        Ok(())
    }
}

} // verus!
