//! Gathering the parts of a request that brings a project and a file: the
//! part with a file name is the file, a part without one is the project's
//! description.

use vstd::prelude::*;
use vstd::string::*;
use crate::text::{chars_of, text_of};

verus! {

/// What a part of the body is taken for.
#[derive(Debug, Clone, Copy, PartialEq, Eq, Structural)]
pub enum PartKind {
    /// The bytes of the file: the part names a file.
    File,
    /// The description of the project: the part names no file.
    Data,
    /// Nothing: the part does not say what it is.
    Skipped,
}

/// What has been gathered of a body.
#[derive(Debug)]
pub struct Parts {
    /// The name of the file, as the last part that named one gave it.
    pub upload_name: Option<String>,
    /// The bytes of the file.
    pub file: Vec<u8>,
    /// The bytes of the project's description.
    pub data: Vec<u8>,
}

/// The gathered parts as plain values.
#[verifier::ext_equal]
pub struct Gathered {
    pub upload_name: Option<Seq<char>>,
    pub file: Seq<u8>,
    pub data: Seq<u8>,
}

impl View for Parts {
    type V = Gathered;

    open spec fn view(&self) -> Gathered {
        Gathered { upload_name: text_of(self.upload_name), file: self.file@, data: self.data@ }
    }
}

/// What a part is taken for, from its content disposition: `None` where
/// it has none, and otherwise the file name that the disposition gives,
/// if it gives one.
pub open spec fn kind_of(disposition: Option<Option<Seq<char>>>) -> PartKind {
    match disposition {
        Some(Some(_)) => PartKind::File,
        Some(None) => PartKind::Data,
        None => PartKind::Skipped,
    }
}

/// The two levels of an optional file name as characters.
pub open spec fn file_named_by(disposition: Option<Option<&str>>) -> Option<Option<Seq<char>>> {
    match disposition {
        Some(name) => Some(chars_of(name)),
        None => None,
    }
}

impl Gathered {
    /// Nothing gathered yet.
    pub open spec fn empty() -> Gathered {
        Gathered { upload_name: None, file: Seq::empty(), data: Seq::empty() }
    }

    /// What is gathered once a part with `disposition` has begun: a part
    /// that names a file gives the upload its name.
    pub open spec fn begin(self, disposition: Option<Option<Seq<char>>>) -> Gathered {
        match disposition {
            Some(Some(name)) => Gathered { upload_name: Some(name), ..self },
            _ => self,
        }
    }

    /// What is gathered once `chunk` has come for a part taken for `kind`.
    pub open spec fn take(self, kind: PartKind, chunk: Seq<u8>) -> Gathered {
        match kind {
            PartKind::File => Gathered { file: self.file + chunk, ..self },
            PartKind::Data => Gathered { data: self.data + chunk, ..self },
            PartKind::Skipped => self,
        }
    }
}

/// `chunk` appended to `bytes`.
fn append(bytes: &mut Vec<u8>, chunk: &[u8])
    ensures
        final(bytes)@ == old(bytes)@ + chunk@,
{
    bytes.extend_from_slice(chunk);
}

impl Parts {
    /// Nothing gathered yet.
    pub fn new() -> (parts: Self)
        ensures
            parts@ == Gathered::empty(),
    {
        Parts { upload_name: None, file: Vec::new(), data: Vec::new() }
    }

    /// Takes note of a part that begins, and says what its bytes are
    /// taken for.
    pub fn begin(&mut self, disposition: Option<Option<&str>>) -> (kind: PartKind)
        ensures
            kind == kind_of(file_named_by(disposition)),
            final(self)@ == old(self)@.begin(file_named_by(disposition)),
    {
        match disposition {
            Some(Some(name)) => {
                self.upload_name = Some(name.to_owned());
                PartKind::File
            },
            Some(None) => PartKind::Data,
            None => PartKind::Skipped,
        }
    }

    /// Takes the bytes that came for a part taken for `kind`.
    pub fn take(&mut self, kind: PartKind, chunk: &[u8])
        ensures
            final(self)@ == old(self)@.take(kind, chunk@),
    {
        match kind {
            PartKind::File => append(&mut self.file, chunk),
            PartKind::Data => append(&mut self.data, chunk),
            PartKind::Skipped => {},
        }
    }
}

} // verus!
