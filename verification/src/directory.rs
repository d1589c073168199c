//! The export directory: the lookup service that resolves export names
//! to export metadata during negotiation.

use vstd::prelude::*;
use crate::flags::TransmissionFlags;

verus! {

/// A named block device offered by the server, with the metadata the
/// negotiator reports: size, transmission flags, block size bounds, and
/// the meta context names the export supports.
#[derive(Debug)]
pub struct Export {
    pub name: Vec<u8>,
    pub size_bytes: u64,
    pub flags: TransmissionFlags,
    pub min_block_size: u32,
    pub preferred_block_size: u32,
    pub max_block_size: u32,
    pub contexts: Vec<Vec<u8>>,
}

/// The mathematical shape of an export.
pub struct ExportView {
    pub name: Seq<u8>,
    pub size_bytes: u64,
    pub flags: TransmissionFlags,
    pub min_block_size: u32,
    pub preferred_block_size: u32,
    pub max_block_size: u32,
    pub contexts: Seq<Seq<u8>>,
}

impl View for Export {
    type V = ExportView;

    open spec fn view(&self) -> ExportView {
        ExportView {
            name: self.name@,
            size_bytes: self.size_bytes,
            flags: self.flags,
            min_block_size: self.min_block_size,
            preferred_block_size: self.preferred_block_size,
            max_block_size: self.max_block_size,
            contexts: self.contexts@.map_values(|c: Vec<u8>| c@),
        }
    }
}

/// Whether the export supports a meta context named `q`.
pub open spec fn spec_supports_context(e: ExportView, q: Seq<u8>) -> bool {
    exists|j: int| 0 <= j < e.contexts.len() && e.contexts[j] == q
}

/// Whether some export in `exports` is named `name`.
pub open spec fn spec_has_export(exports: Seq<Export>, name: Seq<u8>) -> bool {
    exists|i: int| 0 <= i < exports.len() && exports[i]@.name == name
}

/// Compares two byte strings.
pub fn bytes_eq(a: &Vec<u8>, b: &Vec<u8>) -> (r: bool)
    ensures
        r == (a@ == b@),
{
    if a.len() != b.len() {
        assert(a@ != b@);
        return false;
    }
    let n: usize = a.len();
    let mut i: usize = 0;
    while i < n
        invariant
            i <= n,
            n == a@.len() == b@.len(),
            forall|j: int| 0 <= j < i ==> a@[j] == b@[j],
        decreases n - i,
    {
        if a[i] != b[i] {
            return false;
        }
        i = i + 1;
    }
    assert(a@ =~= b@);
    true
}

/// Copies a byte string.
pub fn clone_bytes(v: &Vec<u8>) -> (r: Vec<u8>)
    ensures
        r@ == v@,
{
    let mut r: Vec<u8> = Vec::new();
    let mut i: usize = 0;
    while i < v.len()
        invariant
            i <= v@.len(),
            r@ == v@.subrange(0, i as int),
        decreases v@.len() - i,
    {
        r.push(v[i]);
        assert(r@ =~= v@.subrange(0, i + 1));
        i = i + 1;
    }
    assert(r@ =~= v@);
    r
}

impl Export {
    /// Whether this export supports the meta context named `q`.
    pub fn supports_context(&self, q: &Vec<u8>) -> (r: bool)
        ensures
            r == spec_supports_context(self@, q@),
    {
        let n: usize = self.contexts.len();
        let mut i: usize = 0;
        while i < n
            invariant
                i <= n,
                n == self.contexts@.len(),
                self@.contexts.len() == n,
                forall|j: int| 0 <= j < i ==> self@.contexts[j] != q@,
            decreases n - i,
        {
            assert(self@.contexts[i as int] == self.contexts@[i as int]@);
            if bytes_eq(&self.contexts[i], q) {
                return true;
            }
            i = i + 1;
        }
        false
    }

    /// Copies this export.
    pub fn duplicate(&self) -> (r: Export)
        ensures
            r@ == self@,
    {
        let mut contexts: Vec<Vec<u8>> = Vec::new();
        let mut i: usize = 0;
        while i < self.contexts.len()
            invariant
                i <= self.contexts@.len(),
                contexts@.len() == i,
                forall|j: int| 0 <= j < i ==> contexts@[j]@ == self.contexts@[j]@,
            decreases self.contexts@.len() - i,
        {
            contexts.push(clone_bytes(&self.contexts[i]));
            i = i + 1;
        }
        let r = Export {
            name: clone_bytes(&self.name),
            size_bytes: self.size_bytes,
            flags: self.flags,
            min_block_size: self.min_block_size,
            preferred_block_size: self.preferred_block_size,
            max_block_size: self.max_block_size,
            contexts,
        };
        assert(r@.contexts =~= self@.contexts);
        r
    }
}

/// The lookup service consumed during negotiation: a directory of the
/// exports this server offers.
#[derive(Debug)]
pub struct ExportDirectory {
    pub exports: Vec<Export>,
}

impl ExportDirectory {
    /// An empty directory.
    pub fn new() -> (r: ExportDirectory)
        ensures
            r.exports@.len() == 0,
    {
        ExportDirectory { exports: Vec::new() }
    }

    /// Adds an export at the end of the directory order.
    pub fn add(&mut self, e: Export)
        ensures
            final(self).exports@ == old(self).exports@.push(e),
    {
        self.exports.push(e);
    }

    /// The index of the first export named `name`, if any. `Some` is
    /// returned exactly when the directory holds such an export.
    pub fn lookup(&self, name: &Vec<u8>) -> (r: Option<usize>)
        ensures
            match r {
                Some(i) => i < self.exports@.len() && self.exports@[i as int]@.name == name@
                    && forall|j: int| 0 <= j < i ==> self.exports@[j]@.name != name@,
                None => !spec_has_export(self.exports@, name@),
            },
            r is Some <==> spec_has_export(self.exports@, name@),
    {
        let n: usize = self.exports.len();
        let mut i: usize = 0;
        while i < n
            invariant
                i <= n,
                n == self.exports@.len(),
                forall|j: int| 0 <= j < i ==> self.exports@[j]@.name != name@,
            decreases n - i,
        {
            if bytes_eq(&self.exports[i].name, name) {
                return Some(i);
            }
            i = i + 1;
        }
        None
    }
}

} // verus!
