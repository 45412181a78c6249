//! Bounded builder for the guest kernel command line.
//!
//! Boot parameters accumulate as `key=value` tokens separated by single
//! spaces. The builder enforces a byte capacity, validates keys and values,
//! and refuses a key that was already inserted, so the resulting line is a
//! well-formed parameter list the kernel loader can hand to the guest.

use vstd::prelude::*;
use vstd::string::StringSliceAdditionalSpecFns;

use crate::bytes_util;
use crate::bytes_util::seq_has_byte;

verus! {

/// Why the builder refused a token.
#[derive(Clone, Copy, Debug, PartialEq, Eq, Structural)]
pub enum CmdlineError {
    /// The key contains an `=` byte.
    HasEquals,
    /// The key contains whitespace or a NUL byte, or the value contains a
    /// NUL or newline byte.
    HasSpace,
    /// Appending the token would push the line past its capacity.
    TooLarge,
    /// The key was inserted before.
    DuplicateKey,
}

impl CmdlineError {
    /// The error as text.
    pub open spec fn describe_spec(&self) -> Seq<char> {
        match self {
            CmdlineError::HasEquals => "string contains an equals sign"@,
            CmdlineError::HasSpace => "string contains a space"@,
            CmdlineError::TooLarge => "inserted string is too long"@,
            CmdlineError::DuplicateKey => "inserted key is already present"@,
        }
    }

    /// The error as text.
    pub fn describe(&self) -> (r: String)
        ensures
            r@ == self.describe_spec(),
    {
        match self {
            CmdlineError::HasEquals => String::from_str("string contains an equals sign"),
            CmdlineError::HasSpace => String::from_str("string contains a space"),
            CmdlineError::TooLarge => String::from_str("inserted string is too long"),
            CmdlineError::DuplicateKey => String::from_str("inserted key is already present"),
        }
    }
}

/// The space byte that separates two tokens.
pub const SEPARATOR: u8 = 0x20;

/// Bytes never accepted in a key: `=` is checked apart, and these five.
pub open spec fn key_has_whitespace(k: Seq<u8>) -> bool {
    ||| seq_has_byte(k, 0x20)
    ||| seq_has_byte(k, 0x09)
    ||| seq_has_byte(k, 0x0a)
    ||| seq_has_byte(k, 0x0d)
    ||| seq_has_byte(k, 0x00)
}

/// Bytes never accepted in a value or raw fragment: NUL would truncate the
/// C string the loader builds, a newline would end the parameter list early.
pub open spec fn fragment_forbidden(v: Seq<u8>) -> bool {
    seq_has_byte(v, 0x00) || seq_has_byte(v, 0x0a)
}

/// `line` with `frag` appended, separated by one space unless `line` is
/// still empty.
pub open spec fn appended(line: Seq<u8>, frag: Seq<u8>) -> Seq<u8> {
    if line.len() == 0 {
        frag
    } else {
        line + seq![SEPARATOR] + frag
    }
}

/// Bytes `appended` adds to the line.
pub open spec fn appended_len(line: Seq<u8>, frag: Seq<u8>) -> nat {
    if line.len() == 0 {
        frag.len()
    } else {
        frag.len() + 1
    }
}

/// Accumulates guest kernel boot parameters under a byte capacity.
pub struct Cmdline {
    line: Vec<u8>,
    keys: Vec<Vec<u8>>,
    capacity: usize,
}

impl View for Cmdline {
    type V = Seq<u8>;

    closed spec fn view(&self) -> Seq<u8> {
        self.line@
    }
}

impl Cmdline {
    /// The keys inserted so far, in insertion order.
    pub closed spec fn spec_keys(&self) -> Seq<Seq<u8>> {
        Seq::new(self.keys@.len(), |i: int| self.keys@[i]@)
    }

    /// The configured byte capacity.
    pub closed spec fn spec_capacity(&self) -> nat {
        self.capacity as nat
    }

    /// True when `k` was inserted as a key before.
    pub open spec fn has_key(&self, k: Seq<u8>) -> bool {
        exists|i: int| 0 <= i < self.spec_keys().len() && self.spec_keys()[i] == k
    }

    /// The builder's invariant: the line never exceeds its capacity and
    /// never holds a NUL or newline byte.
    pub open spec fn wf(&self) -> bool {
        &&& self@.len() <= self.spec_capacity()
        &&& !fragment_forbidden(self@)
    }

    /// The error `insert` reports for `key` and `val`, or `None` when the
    /// token is accepted; checks run in this order.
    pub open spec fn insert_outcome(&self, k: Seq<u8>, v: Seq<u8>) -> Option<CmdlineError> {
        if seq_has_byte(k, 0x3d) {
            Some(CmdlineError::HasEquals)
        } else if key_has_whitespace(k) {
            Some(CmdlineError::HasSpace)
        } else if fragment_forbidden(v) {
            Some(CmdlineError::HasSpace)
        } else if self.has_key(k) {
            Some(CmdlineError::DuplicateKey)
        } else if appended_len(self@, k + seq![0x3du8] + v) + self@.len() > self.spec_capacity() {
            Some(CmdlineError::TooLarge)
        } else {
            None
        }
    }

    /// The error `insert_bytes` reports for fragment `f`, or `None`.
    pub open spec fn insert_bytes_outcome(&self, f: Seq<u8>) -> Option<CmdlineError> {
        if fragment_forbidden(f) {
            Some(CmdlineError::HasSpace)
        } else if appended_len(self@, f) + self@.len() > self.spec_capacity() {
            Some(CmdlineError::TooLarge)
        } else {
            None
        }
    }

    /// An empty builder with the given capacity.
    pub fn new(capacity: usize) -> (r: Cmdline)
        requires
            capacity > 0,
        ensures
            r@ == Seq::<u8>::empty(),
            r.spec_keys() == Seq::<Seq<u8>>::empty(),
            r.spec_capacity() == capacity,
            r.wf(),
    {
        let r = Cmdline { line: Vec::new(), keys: Vec::new(), capacity };
        assert(r.spec_keys() =~= Seq::<Seq<u8>>::empty());
        r
    }

    /// Appends `key=val` after validating both parts, registering the key
    /// for duplicate detection.
    pub fn insert(&mut self, key: &str, val: &str) -> (r: Result<(), CmdlineError>)
        requires
            old(self).wf(),
        ensures
            final(self).wf(),
            ({
                let k = key.spec_bytes();
                let v = val.spec_bytes();
                match old(self).insert_outcome(k, v) {
                    Some(e) => r == Err::<(), CmdlineError>(e) && *final(self) == *old(self),
                    None => {
                        &&& r == Ok::<(), CmdlineError>(())
                        &&& final(self)@ == appended(old(self)@, k + seq![0x3du8] + v)
                        &&& final(self).spec_keys() == old(self).spec_keys().push(k)
                        &&& final(self).spec_capacity() == old(self).spec_capacity()
                    },
                }
            }),
    {
        let k = key.as_bytes();
        let v = val.as_bytes();
        if bytes_util::contains_byte(k, 0x3d) {
            return Err(CmdlineError::HasEquals);
        }
        if bytes_util::contains_byte(k, 0x20) || bytes_util::contains_byte(k, 0x09)
            || bytes_util::contains_byte(k, 0x0a) || bytes_util::contains_byte(k, 0x0d)
            || bytes_util::contains_byte(k, 0x00) {
            return Err(CmdlineError::HasSpace);
        }
        if bytes_util::contains_byte(v, 0x00) || bytes_util::contains_byte(v, 0x0a) {
            return Err(CmdlineError::HasSpace);
        }
        if self.contains_key(k) {
            return Err(CmdlineError::DuplicateKey);
        }
        let sep: usize = if self.line.len() == 0 {
            0
        } else {
            1
        };
        // line.len() <= capacity already, so these subtractions stay in range
        let room: usize = self.capacity - self.line.len();
        if sep > room || k.len() > room - sep || 1 > room - sep - k.len() || v.len() > room - sep
            - k.len() - 1 {
            return Err(CmdlineError::TooLarge);
        }
        let ghost old_line = self.line@;
        if sep == 1 {
            self.line.push(SEPARATOR);
        }
        bytes_util::push_bytes(&mut self.line, k);
        self.line.push(0x3d);
        bytes_util::push_bytes(&mut self.line, v);
        let key_copy = vstd::slice::slice_to_vec(k);
        self.keys.push(key_copy);
        assert(self.line@ =~= appended(old_line, k@ + seq![0x3du8] + v@));
        assert(self.spec_keys() =~= old(self).spec_keys().push(k@));
        assert(!fragment_forbidden(self.line@)) by {
            lemma_append_keeps_clean(old_line, k@ + seq![0x3du8] + v@);
        }
        Ok(())
    }

    /// Appends an already-formed fragment, adding the separating space;
    /// no key is registered.
    pub fn insert_str(&mut self, raw: &str) -> (r: Result<(), CmdlineError>)
        requires
            old(self).wf(),
        ensures
            final(self).wf(),
            match old(self).insert_bytes_outcome(raw.spec_bytes()) {
                Some(e) => r == Err::<(), CmdlineError>(e) && *final(self) == *old(self),
                None => {
                    &&& r == Ok::<(), CmdlineError>(())
                    &&& final(self)@ == appended(old(self)@, raw.spec_bytes())
                    &&& final(self).spec_keys() == old(self).spec_keys()
                    &&& final(self).spec_capacity() == old(self).spec_capacity()
                },
            },
    {
        self.insert_bytes(raw.as_bytes())
    }

    /// Appends an already-formed fragment given as bytes; the device
    /// manager builds its discovery fragments this way.
    pub fn insert_bytes(&mut self, frag: &[u8]) -> (r: Result<(), CmdlineError>)
        requires
            old(self).wf(),
        ensures
            final(self).wf(),
            match old(self).insert_bytes_outcome(frag@) {
                Some(e) => r == Err::<(), CmdlineError>(e) && *final(self) == *old(self),
                None => {
                    &&& r == Ok::<(), CmdlineError>(())
                    &&& final(self)@ == appended(old(self)@, frag@)
                    &&& final(self).spec_keys() == old(self).spec_keys()
                    &&& final(self).spec_capacity() == old(self).spec_capacity()
                },
            },
    {
        if bytes_util::contains_byte(frag, 0x00) || bytes_util::contains_byte(frag, 0x0a) {
            return Err(CmdlineError::HasSpace);
        }
        let sep: usize = if self.line.len() == 0 {
            0
        } else {
            1
        };
        let room: usize = self.capacity - self.line.len();
        if sep > room || frag.len() > room - sep {
            return Err(CmdlineError::TooLarge);
        }
        let ghost old_line = self.line@;
        if sep == 1 {
            self.line.push(SEPARATOR);
        }
        bytes_util::push_bytes(&mut self.line, frag);
        assert(self.line@ =~= appended(old_line, frag@));
        assert(!fragment_forbidden(self.line@)) by {
            lemma_append_keeps_clean(old_line, frag@);
        }
        Ok(())
    }

    /// The accumulated line.
    pub fn as_bytes(&self) -> (r: &Vec<u8>)
        ensures
            r@ == self@,
    {
        &self.line
    }

    /// The accumulated line with the terminating NUL the kernel loader
    /// hands to the guest.
    pub fn as_cstring_bytes(&self) -> (r: Vec<u8>)
        ensures
            r@ == self@.push(0u8),
    {
        let mut out: Vec<u8> = Vec::new();
        bytes_util::push_bytes(&mut out, self.line.as_slice());
        out.push(0);
        assert(out@ =~= self@.push(0u8));
        out
    }

    /// Bytes used so far.
    pub fn len(&self) -> (r: usize)
        ensures
            r == self@.len(),
    {
        self.line.len()
    }

    /// The configured capacity.
    pub fn capacity(&self) -> (r: usize)
        ensures
            r == self.spec_capacity(),
    {
        self.capacity
    }

    fn contains_key(&self, k: &[u8]) -> (r: bool)
        ensures
            r == self.has_key(k@),
    {
        let mut i: usize = 0;
        while i < self.keys.len()
            invariant
                0 <= i <= self.keys.len(),
                forall|j: int| 0 <= j < i ==> self.spec_keys()[j] != k@,
            decreases self.keys.len() - i,
        {
            if bytes_util::bytes_eq(self.keys[i].as_slice(), k) {
                assert(self.spec_keys()[i as int] == k@);
                return true;
            }
            i += 1;
        }
        false
    }
}

/// A command line under its capacity stays under it: the well-formedness
/// every builder operation preserves bounds the line by the capacity.
pub proof fn lemma_cmdline_within_capacity(c: &Cmdline)
    requires
        c.wf(),
    ensures
        c@.len() <= c.spec_capacity(),
{
}

proof fn lemma_append_keeps_clean(line: Seq<u8>, frag: Seq<u8>)
    requires
        !fragment_forbidden(line),
        !fragment_forbidden(frag),
    ensures
        !fragment_forbidden(appended(line, frag)),
{
    let r = appended(line, frag);
    assert forall|i: int| 0 <= i < r.len() implies r[i] != 0x00 && r[i] != 0x0a by {
        if line.len() == 0 {
            assert(r[i] == frag[i]);
        } else if i < line.len() {
            assert(r[i] == line[i]);
        } else if i == line.len() {
            assert(r[i] == SEPARATOR);
        } else {
            assert(r[i] == frag[i - line.len() - 1]);
        }
        assert(forall|j: int| 0 <= j < line.len() ==> line[j] != 0x00 && line[j] != 0x0a);
        assert(forall|j: int| 0 <= j < frag.len() ==> frag[j] != 0x00 && frag[j] != 0x0a);
    }
}

} // verus!
