//! The objects behind the runtime values: strings, maps, arrays, slices,
//! structs, interfaces, channels, pointers, closures, and the containers of
//! compiled packages and functions.

use crate::arena::{
    ArenaKey, EntityKey, FunctionKey, FunctionObjs, IdentKey, MetadataObjs, PackageKey,
    PackageObjs, DEFAULT_CAPACITY,
};
use crate::gc::{GcKey, GcObj, GcoVec, GosVec, RCQueue};
use crate::instruction::{Instruction, OpIndex, Opcode, ValueType};
use crate::metadata::{lemma_default_shape_extends, GosMetadata, Metadata};
use crate::names::NameTable;
use crate::value::GosValue;
use std::collections::HashMap;
use std::rc::Rc;
use vstd::std_specs::iter::IteratorSpec;
use vstd::prelude::*;

verus! {

/// The position that a bound of a re-slice stands for in a window of `len`
/// items: `(len + 1 + e) mod (len + 1)`, so that `-1` is the end.
pub open spec fn spec_norm_bound(len: int, e: int) -> int
    recommends
        len >= 0,
{
    (len + 1 + e) % (len + 1)
}

/// A begin bound brought into `0..=end`.
pub open spec fn spec_clamp_begin(begin: int, end: int) -> int
{
    if begin < 0 {
        0
    } else if begin > end {
        end
    } else {
        begin
    }
}

/// The position that a bound of a re-slice stands for.
pub fn norm_bound(len: usize, e: isize) -> (r: usize)
    ensures
        r == spec_norm_bound(len as int, e as int),
        r <= len,
{
    let ghost n: int = len + 1;
    if e >= 0 {
        let r: usize = if len == usize::MAX {
            e as usize
        } else {
            (e as usize) % (len + 1)
        };
        proof {
            let q = (e as int) / n;
            vstd::arithmetic::div_mod::lemma_fundamental_div_mod(e as int, n);
            vstd::arithmetic::div_mod::lemma_mod_pos_bound(e as int, n);
            if len == usize::MAX {
                vstd::arithmetic::div_mod::lemma_fundamental_div_mod_converse(
                    e as int,
                    n,
                    0,
                    e as int,
                );
            }
            assert(n + e == (q + 1) * n + r) by (nonlinear_arith)
                requires
                    e == n * q + r,
            ;
            vstd::arithmetic::div_mod::lemma_fundamental_div_mod_converse(
                n + e,
                n,
                q + 1,
                r as int,
            );
        }
        r
    } else {
        let k: usize = (-(e + 1)) as usize;
        let m: usize = if len == usize::MAX {
            k
        } else {
            k % (len + 1)
        };
        let r = len - m;
        proof {
            let q = (k as int) / n;
            vstd::arithmetic::div_mod::lemma_fundamental_div_mod(k as int, n);
            vstd::arithmetic::div_mod::lemma_mod_pos_bound(k as int, n);
            if len == usize::MAX {
                vstd::arithmetic::div_mod::lemma_fundamental_div_mod_converse(
                    k as int,
                    n,
                    0,
                    k as int,
                );
            }
            assert(n + e == (-q) * n + r) by (nonlinear_arith)
                requires
                    k == n * q + m,
                    r == n - 1 - m,
                    n + e == n - 1 - k,
            ;
            vstd::arithmetic::div_mod::lemma_fundamental_div_mod_converse(
                n + e,
                n,
                -q,
                r as int,
            );
        }
        r
    }
}

/// A begin bound brought into `0..=end`.
pub fn clamp_begin(begin: isize, end: usize) -> (r: usize)
    ensures
        r == spec_clamp_begin(begin as int, end as int),
        r <= end,
{
    if begin < 0 {
        0
    } else if begin as usize > end {
        end
    } else {
        begin as usize
    }
}

/// Whether `a` and `b` agree below `i`, and at `i` either `a` ends and `b`
/// goes on, or `a` holds the smaller byte.
pub open spec fn spec_bytes_less_at(a: Seq<u8>, b: Seq<u8>, i: int) -> bool {
    &&& 0 <= i <= a.len()
    &&& i <= b.len()
    &&& forall|k: int| 0 <= k < i ==> a[k] == b[k]
    &&& if i == a.len() {
        i < b.len()
    } else {
        i < b.len() && a[i] < b[i]
    }
}

/// Whether `a` comes before `b` in the order of the bytes.
pub open spec fn spec_bytes_less(a: Seq<u8>, b: Seq<u8>) -> bool {
    exists|i: int| spec_bytes_less_at(a, b, i)
}

/// Of two byte strings either one comes before the other, or they are the
/// same, and no two of these hold together.
pub proof fn lemma_bytes_order(a: Seq<u8>, b: Seq<u8>)
    ensures
        !(spec_bytes_less(a, b) && spec_bytes_less(b, a)),
        !(spec_bytes_less(a, b) && a == b),
{
    if spec_bytes_less(a, b) {
        let i = choose|i: int| spec_bytes_less_at(a, b, i);
        if a == b {
            assert(false);
        }
        if spec_bytes_less(b, a) {
            let j = choose|j: int| spec_bytes_less_at(b, a, j);
            if i < j {
                assert(b[i] == a[i]);
            } else if j < i {
                assert(a[j] == b[j]);
            }
            assert(false);
        }
    }
}

/// `Rc::clone` of std: one more reference to the same string.
#[verifier::external_body]
fn share_string(a: &Rc<String>) -> (r: Rc<String>)
    ensures
        r == *a,
{
    Rc::clone(a)
}

/// A string: a window of bytes into a shared, immutable buffer.
#[derive(Debug)]
pub struct StringObj {
    data: Rc<String>,
    begin: usize,
    end: usize,
}

impl View for StringObj {
    type V = Seq<u8>;

    /// The bytes in the window.
    closed spec fn view(&self) -> Seq<u8> {
        self.spec_data().subrange(self.begin as int, self.end as int)
    }
}

impl StringObj {
    #[verifier::type_invariant]
    spec fn inv(&self) -> bool {
        self.begin <= self.end <= vstd::utf8::encode_utf8(self.data@).len()
    }

    /// The characters of the whole buffer.
    pub closed spec fn spec_buffer(&self) -> Seq<char> {
        self.data@
    }

    /// The bytes of the whole buffer.
    pub open spec fn spec_data(&self) -> Seq<u8> {
        vstd::utf8::encode_utf8(self.spec_buffer())
    }

    /// Where the window begins in the buffer.
    pub closed spec fn spec_begin(&self) -> int {
        self.begin as int
    }

    /// Where the window ends in the buffer.
    pub closed spec fn spec_end(&self) -> int {
        self.end as int
    }

    /// The window lies inside the buffer.
    pub open spec fn spec_wf(&self) -> bool {
        0 <= self.spec_begin() <= self.spec_end() <= self.spec_data().len()
    }

    /// Both ends of the window fall between characters.
    pub open spec fn spec_on_boundaries(&self) -> bool {
        &&& vstd::utf8::is_char_boundary(self.spec_data(), self.spec_begin())
        &&& vstd::utf8::is_char_boundary(self.spec_data(), self.spec_end())
    }

    /// The string that holds `s`, all of it in the window.
    pub closed spec fn spec_with_str(s: String) -> StringObj {
        StringObj {
            data: Rc::new(s),
            begin: 0,
            end: vstd::utf8::encode_utf8(s@).len() as usize,
        }
    }

    #[verifier::when_used_as_spec(spec_with_str)]
    pub fn with_str(s: String) -> (r: StringObj)
        ensures
            r == Self::spec_with_str(s),
            r.spec_buffer() == s@,
            r@ == vstd::utf8::encode_utf8(s@),
            r.spec_begin() == 0,
            r.spec_end() == r.spec_data().len(),
            r.spec_wf(),
            r.spec_on_boundaries(),
    {
        let len = s.as_str().as_bytes().len();
        proof {
            vstd::utf8::encode_utf8_valid_utf8(s@);
            vstd::utf8::is_char_boundary_start_end_of_seq(vstd::utf8::encode_utf8(s@));
        }
        let r = StringObj { data: Rc::new(s), begin: 0, end: len };
        assert(r@ =~= vstd::utf8::encode_utf8(s@));
        r
    }

    /// All bytes of the buffer.
    fn buffer_bytes(&self) -> (b: &[u8])
        ensures
            b@ == self.spec_data(),
            self.spec_wf(),
    {
        proof {
            use_type_invariant(self);
        }
        self.data.as_str().as_bytes()
    }

    /// The text in the window. The window of a string that was re-sliced
    /// inside a character is no text.
    pub fn as_str(&self) -> (r: &str)
        requires
            self.spec_on_boundaries(),
        ensures
            vstd::utf8::encode_utf8(r@) == self@,
    {
        proof {
            use_type_invariant(self);
        }
        let ghost bytes = self.spec_data();
        proof {
            vstd::utf8::encode_utf8_valid_utf8(self.spec_buffer());
        }
        let whole: &str = self.data.as_str();
        let (head, _) = whole.split_at(self.end);
        proof {
            let hb = bytes.subrange(0, self.end as int);
            assert(head@.len() >= 0);
            assert(vstd::utf8::encode_utf8(head@) =~= hb);
            vstd::utf8::valid_utf8_split(bytes, self.end as int);
            if self.begin == 0 {
            } else if self.begin == self.end {
                vstd::utf8::is_char_boundary_start_end_of_seq(hb);
            } else {
                vstd::utf8::is_char_boundary_iff_not_is_continuation_byte(
                    bytes,
                    self.begin as int,
                );
                vstd::utf8::is_char_boundary_iff_not_is_continuation_byte(hb, self.begin as int);
            }
        }
        let (_, tail) = head.split_at(self.begin);
        proof {
            assert(vstd::utf8::encode_utf8(tail@) =~= self@);
        }
        tail
    }

    /// The whole buffer, not only the window.
    pub fn into_string(self) -> (s: String)
        ensures
            s@ == self.spec_buffer(),
    {
        match Rc::try_unwrap(self.data) {
            Ok(s) => s,
            Err(shared) => shared.as_str().to_owned(),
        }
    }

    /// The number of bytes in the window.
    pub fn len(&self) -> (n: usize)
        ensures
            n == self@.len(),
            self.spec_wf(),
    {
        proof {
            use_type_invariant(self);
        }
        self.end - self.begin
    }

    /// The byte at a position of the window.
    pub fn get_byte(&self, i: usize) -> (b: Option<u8>)
        ensures
            b == if i < self@.len() {
                Some(self@[i as int])
            } else {
                None
            },
    {
        let bytes = self.buffer_bytes();
        if i < self.end - self.begin {
            Some(bytes[self.begin + i])
        } else {
            None
        }
    }

    /// A window into this one that shares the buffer. The end bound is
    /// normalised over the window's length, so that `-1` is its end, and the
    /// begin bound is brought into the range up to that end.
    pub fn slice(&self, begin: isize, end: isize) -> (r: StringObj)
        ensures
            r.spec_buffer() == self.spec_buffer(),
            r.spec_wf(),
            ({
                let e = spec_norm_bound(self@.len() as int, end as int);
                let b = spec_clamp_begin(begin as int, e);
                &&& 0 <= b <= e <= self@.len()
                &&& r@ == self@.subrange(b, e)
                &&& r.spec_begin() == self.spec_begin() + b
                &&& r.spec_end() == self.spec_begin() + e
            }),
    {
        proof {
            use_type_invariant(self);
        }
        let len = self.end - self.begin;
        let _ = self.buffer_bytes();
        let ei = norm_bound(len, end);
        let bi = clamp_begin(begin, ei);
        let r = StringObj {
            data: share_string(&self.data),
            begin: self.begin + bi,
            end: self.begin + ei,
        };
        assert(r@ =~= self@.subrange(bi as int, ei as int));
        r
    }

    /// The characters of the text in the window.
    pub fn iter(&self) -> (it: std::str::Chars<'_>)
        requires
            self.spec_on_boundaries(),
        ensures
            vstd::utf8::encode_utf8(it.remaining()) == self@,
    {
        let text = self.as_str();
        proof {
            vstd::string::axiom_spec_iter(text);
        }
        text.chars()
    }

    /// Whether two strings hold the same bytes.
    pub fn eq(&self, other: &StringObj) -> (r: bool)
        ensures
            r == (self@ == other@),
    {
        let a = self.buffer_bytes();
        let b = other.buffer_bytes();
        let n = self.end - self.begin;
        if n != other.end - other.begin {
            assert(self@.len() != other@.len());
            return false;
        }
        let mut i: usize = 0;
        while i < n
            invariant
                i <= n,
                n == self.end - self.begin,
                n == other.end - other.begin,
                self.spec_wf(),
                other.spec_wf(),
                a@ == self.spec_data(),
                b@ == other.spec_data(),
                forall|j: int| 0 <= j < i ==> self@[j] == other@[j],
            decreases n - i,
        {
            if a[self.begin + i] != b[other.begin + i] {
                assert(self@[i as int] != other@[i as int]);
                return false;
            }
            i += 1;
        }
        assert(self@ =~= other@);
        true
    }
}

impl StringObj {
    /// The order of two strings by their bytes: below zero where this one
    /// comes first, zero where they hold the same bytes, above zero where
    /// the other one comes first.
    pub fn compare(&self, other: &StringObj) -> (r: i8)
        ensures
            -1 <= r <= 1,
            r < 0 <==> spec_bytes_less(self@, other@),
            r == 0 <==> self@ == other@,
            r > 0 <==> spec_bytes_less(other@, self@),
    {
        let a = self.buffer_bytes();
        let b = other.buffer_bytes();
        let n = self.end - self.begin;
        let m = other.end - other.begin;
        proof {
            lemma_bytes_order(self@, other@);
            lemma_bytes_order(other@, self@);
        }
        let mut i: usize = 0;
        while i < n && i < m
            invariant
                i <= n,
                i <= m,
                n == self@.len(),
                m == other@.len(),
                n == self.end - self.begin,
                m == other.end - other.begin,
                self.spec_wf(),
                other.spec_wf(),
                a@ == self.spec_data(),
                b@ == other.spec_data(),
                forall|j: int| 0 <= j < i ==> self@[j] == other@[j],
            decreases n - i,
        {
            let x = a[self.begin + i];
            let y = b[other.begin + i];
            assert(x == self@[i as int] && y == other@[i as int]);
            if x < y {
                assert(spec_bytes_less_at(self@, other@, i as int));
                return -1;
            }
            if x > y {
                assert(spec_bytes_less_at(other@, self@, i as int));
                return 1;
            }
            i += 1;
        }
        if n < m {
            assert(spec_bytes_less_at(self@, other@, i as int));
            -1
        } else if n > m {
            assert(spec_bytes_less_at(other@, self@, i as int));
            1
        } else {
            assert(self@ =~= other@);
            0
        }
    }
}

impl Clone for StringObj {
    /// One more window on the same buffer.
    fn clone(&self) -> (r: Self)
        ensures
            r == *self,
    {
        proof {
            use_type_invariant(self);
        }
        StringObj { data: share_string(&self.data), begin: self.begin, end: self.end }
    }
}

/// The entries of a map, in the order in which their keys were added. Two
/// keys are the same key where they are the same value.
#[derive(Debug)]
pub struct GosHashMap {
    pub entries: Vec<(GosValue, GosValue)>,
}

impl GosHashMap {
    /// Whether `key` stands at position `i` and nowhere before it.
    pub open spec fn spec_first_at(&self, key: GosValue, i: int) -> bool {
        &&& 0 <= i < self.entries@.len()
        &&& key.spec_identical(&self.entries@[i].0)
        &&& forall|j: int| 0 <= j < i ==> !key.spec_identical(&(#[trigger] self.entries@[j]).0)
    }

    /// The first position at which `key` stands.
    pub open spec fn spec_position(&self, key: GosValue) -> Option<int> {
        if exists|i: int| self.spec_first_at(key, i) {
            Some(choose|i: int| self.spec_first_at(key, i))
        } else {
            None
        }
    }

    /// Whether the map holds the key.
    pub open spec fn spec_contains(&self, key: GosValue) -> bool {
        self.spec_position(key) is Some
    }

    /// The value under a key that the map holds.
    pub open spec fn spec_get(&self, key: GosValue) -> GosValue
        recommends
            self.spec_contains(key),
    {
        self.entries@[self.spec_position(key).unwrap()].1
    }

    /// The entries after a value was put under a key: the entry of a key
    /// that the map holds keeps its place and its key and gets the value;
    /// another key gets a new entry at the end.
    pub open spec fn spec_after_insert(&self, key: GosValue, val: GosValue) -> Seq<
        (GosValue, GosValue),
    > {
        match self.spec_position(key) {
            Some(i) => self.entries@.update(i, (self.entries@[i].0, val)),
            None => self.entries@.push((key, val)),
        }
    }

    /// The position at which a key first stands is the only one that
    /// `spec_position` can give.
    pub proof fn lemma_position_is(&self, key: GosValue, i: int)
        requires
            self.spec_first_at(key, i),
        ensures
            self.spec_position(key) == Some(i),
    {
        let k = choose|k: int| self.spec_first_at(key, k);
        if k < i {
            assert(!key.spec_identical(&self.entries@[k].0));
        }
        if i < k {
            assert(!key.spec_identical(&self.entries@[i].0));
        }
    }

    /// A key that stands nowhere has no position.
    pub proof fn lemma_position_none(&self, key: GosValue)
        requires
            forall|j: int|
                0 <= j < self.entries@.len() ==> !key.spec_identical(
                    &(#[trigger] self.entries@[j]).0,
                ),
        ensures
            self.spec_position(key) is None,
    {
        if exists|i: int| self.spec_first_at(key, i) {
            let k = choose|k: int| self.spec_first_at(key, k);
            assert(!key.spec_identical(&self.entries@[k].0));
        }
    }

    /// A map without entries.
    pub fn new() -> (m: GosHashMap)
        ensures
            m.entries@.len() == 0,
            forall|key: GosValue| !m.spec_contains(key),
    {
        let m = GosHashMap { entries: Vec::new() };
        assert forall|key: GosValue| !m.spec_contains(key) by {
            m.lemma_position_none(key);
        }
        m
    }

    /// The number of entries.
    pub fn len(&self) -> (n: usize)
        ensures
            n == self.entries@.len(),
    {
        self.entries.len()
    }

    /// The position of a key.
    pub fn position(&self, key: &GosValue) -> (r: Option<usize>)
        ensures
            match r {
                Some(i) => self.spec_position(*key) == Some(i as int) && i < self.entries@.len(),
                None => self.spec_position(*key) is None,
            },
    {
        let mut i: usize = 0;
        while i < self.entries.len()
            invariant
                i <= self.entries@.len(),
                forall|j: int|
                    0 <= j < i ==> !key.spec_identical(&(#[trigger] self.entries@[j]).0),
            decreases self.entries@.len() - i,
        {
            if key.identical(&self.entries[i].0) {
                proof {
                    self.lemma_position_is(*key, i as int);
                }
                return Some(i);
            }
            i += 1;
        }
        proof {
            self.lemma_position_none(*key);
        }
        None
    }

    /// The value under a key, if the map holds it.
    pub fn get(&self, key: &GosValue) -> (r: Option<&GosValue>)
        ensures
            r is Some <==> self.spec_contains(*key),
            r matches Some(v) ==> *v == self.spec_get(*key),
    {
        match self.position(key) {
            Some(i) => Some(&self.entries[i].1),
            None => None,
        }
    }

    /// After a value was put under a key, the map holds the key with the
    /// value, and every other key is where it was, with the value it had.
    pub proof fn lemma_after_insert(&self, before: &GosHashMap, key: GosValue, val: GosValue)
        requires
            self.entries@ == before.spec_after_insert(key, val),
        ensures
            self.spec_contains(key),
            self.spec_get(key) == val,
            forall|other: GosValue|
                !other.spec_identical(&key) ==> #[trigger] self.spec_position(other)
                    == before.spec_position(other),
            forall|other: GosValue|
                !other.spec_identical(&key) && before.spec_contains(other) ==> #[trigger] self.spec_get(
                    other,
                ) == before.spec_get(other),
            self.entries@.len() == if before.spec_contains(key) {
                before.entries@.len()
            } else {
                before.entries@.len() + 1
            },
    {
        match before.spec_position(key) {
            Some(i) => {
                assert(before.spec_first_at(key, i));
                assert forall|j: int| 0 <= j < self.entries@.len() implies (
                #[trigger] self.entries@[j]).0 == before.entries@[j].0 by {}
                assert forall|other: GosValue, k: int| #[trigger]
                    self.spec_first_at(other, k) == before.spec_first_at(other, k) by {
                    if 0 <= k < before.entries@.len() {
                        assert(self.entries@[k].0 == before.entries@[k].0);
                        assert forall|j: int| 0 <= j < k implies (other.spec_identical(
                            &self.entries@[j].0,
                        ) == other.spec_identical(&before.entries@[j].0)) by {
                            assert(self.entries@[j].0 == before.entries@[j].0);
                        }
                    }
                }
                assert forall|other: GosValue| #[trigger]
                    self.spec_position(other) == before.spec_position(other) by {
                    if before.spec_position(other) is Some {
                        let k = before.spec_position(other).unwrap();
                        assert(before.spec_first_at(other, k));
                        assert(self.spec_first_at(other, k));
                        self.lemma_position_is(other, k);
                    } else if self.spec_position(other) is Some {
                        let k = self.spec_position(other).unwrap();
                        assert(self.spec_first_at(other, k));
                        assert(before.spec_first_at(other, k));
                    }
                }
                assert forall|other: GosValue|
                    !other.spec_identical(&key) && before.spec_contains(
                        other,
                    ) implies #[trigger] self.spec_get(other) == before.spec_get(other) by {
                    let k = before.spec_position(other).unwrap();
                    assert(before.spec_first_at(other, k));
                    if k == i {
                        other.lemma_identical_symmetric(&before.entries@[k].0);
                        key.lemma_identical_symmetric(&before.entries@[k].0);
                        other.lemma_identical_transitive(&before.entries@[k].0, &key);
                    }
                }
            },
            None => {
                let last = before.entries@.len() as int;
                key.lemma_identical_reflexive();
                assert(self.entries@[last].0 == key);
                assert forall|j: int| 0 <= j < last implies !key.spec_identical(
                    &(#[trigger] self.entries@[j]).0,
                ) by {
                    assert(self.entries@[j] == before.entries@[j]);
                    if key.spec_identical(&before.entries@[j].0) {
                        before.lemma_found(key, j);
                    }
                }
                assert(self.spec_first_at(key, last));
                self.lemma_position_is(key, last);
                assert forall|other: GosValue| !other.spec_identical(&key) implies (
                #[trigger] self.spec_position(other)) == before.spec_position(other) by {
                    if before.spec_position(other) is Some {
                        let k = before.spec_position(other).unwrap();
                        assert(before.spec_first_at(other, k));
                        assert(self.entries@[k] == before.entries@[k]);
                        assert forall|j: int| 0 <= j < k implies !other.spec_identical(
                            &(#[trigger] self.entries@[j]).0,
                        ) by {
                            assert(self.entries@[j] == before.entries@[j]);
                        }
                        assert(self.spec_first_at(other, k));
                        self.lemma_position_is(other, k);
                    } else if self.spec_position(other) is Some {
                        let k = self.spec_position(other).unwrap();
                        assert(self.spec_first_at(other, k));
                        assert(k < last);
                        assert(self.entries@[k] == before.entries@[k]);
                        assert forall|j: int| 0 <= j < k implies !other.spec_identical(
                            &(#[trigger] before.entries@[j]).0,
                        ) by {
                            assert(self.entries@[j] == before.entries@[j]);
                        }
                        assert(before.spec_first_at(other, k));
                    }
                }
                assert forall|other: GosValue|
                    !other.spec_identical(&key) && before.spec_contains(
                        other,
                    ) implies #[trigger] self.spec_get(other) == before.spec_get(other) by {
                    let k = before.spec_position(other).unwrap();
                    assert(before.spec_first_at(other, k));
                    assert(self.entries@[k] == before.entries@[k]);
                }
            },
        }
    }

    /// Puts a value under a key. The value of a key that the map holds is
    /// replaced and returned; another key is added at the end. Other keys
    /// keep their values.
    pub fn insert(&mut self, key: GosValue, val: GosValue) -> (prev: Option<GosValue>)
        ensures
            final(self).entries@ == old(self).spec_after_insert(key, val),
            final(self).spec_contains(key),
            final(self).spec_get(key) == val,
            prev == if old(self).spec_contains(key) {
                Some(old(self).spec_get(key))
            } else {
                None
            },
            forall|other: GosValue|
                !other.spec_identical(&key) ==> #[trigger] final(self).spec_position(other)
                    == old(self).spec_position(other),
            forall|other: GosValue|
                !other.spec_identical(&key) && old(self).spec_contains(other) ==> #[trigger] final(self).spec_get(other) == old(self).spec_get(other),
            final(self).entries@.len() == if old(self).spec_contains(key) {
                old(self).entries@.len()
            } else {
                old(self).entries@.len() + 1
            },
    {
        let ghost before = *self;
        let prev = match self.position(&key) {
            Some(i) => {
                let mut slot = GosValue::Bool(false);
                let entry = &mut self.entries[i];
                std::mem::swap(&mut entry.1, &mut slot);
                entry.1 = val;
                Some(slot)
            },
            None => {
                self.entries.push((key, val));
                None
            },
        };
        proof {
            assert(self.entries@ =~= before.spec_after_insert(key, val));
            self.lemma_after_insert(&before, key, val);
        }
        prev
    }

    /// A key that stands somewhere has a first position.
    pub proof fn lemma_found(&self, key: GosValue, i: int)
        requires
            0 <= i < self.entries@.len(),
            key.spec_identical(&self.entries@[i].0),
        ensures
            self.spec_position(key) is Some,
        decreases i,
    {
        if forall|j: int| 0 <= j < i ==> !key.spec_identical(&(#[trigger] self.entries@[j]).0) {
            assert(self.spec_first_at(key, i));
            self.lemma_position_is(key, i);
        } else {
            let j = choose|j: int|
                0 <= j < i && key.spec_identical(&(#[trigger] self.entries@[j]).0);
            self.lemma_found(key, j);
        }
    }
}

/// A copy of a list of values; a composite's copy shares the object.
pub fn clone_values(v: &Vec<GosValue>) -> (r: Vec<GosValue>)
    ensures
        r@ == v@,
{
    let mut out: Vec<GosValue> = Vec::new();
    let mut i: usize = 0;
    while i < v.len()
        invariant
            i <= v@.len(),
            out@ == v@.subrange(0, i as int),
        decreases v@.len() - i,
    {
        out.push(v[i].clone());
        proof {
            assert(out@ =~= v@.subrange(0, i + 1));
        }
        i += 1;
    }
    proof {
        assert(v@.subrange(0, v@.len() as int) =~= v@);
    }
    out
}

/// A copy of the values from `begin` up to `end`.
pub fn clone_range(v: &Vec<GosValue>, begin: usize, end: usize) -> (r: Vec<GosValue>)
    requires
        begin <= end <= v@.len(),
    ensures
        r@ == v@.subrange(begin as int, end as int),
{
    let mut out: Vec<GosValue> = Vec::new();
    let mut i: usize = begin;
    while i < end
        invariant
            begin <= i <= end,
            end <= v@.len(),
            out@ == v@.subrange(begin as int, i as int),
        decreases end - i,
    {
        out.push(v[i].clone());
        proof {
            assert(out@ =~= v@.subrange(begin as int, i + 1));
        }
        i += 1;
    }
    out
}

/// A map: its type, the value that reading an absent key gives, and the
/// handle of its entries; a nil map has no entries to point to.
#[derive(Debug)]
pub struct MapObj {
    pub meta: GosMetadata,
    default_val: GosValue,
    pub map: Option<GcKey>,
}

impl Clone for MapObj {
    /// The same map: the copy shares the entries.
    fn clone(&self) -> (r: Self)
        ensures
            r == *self,
    {
        MapObj { meta: self.meta, default_val: self.default_val.clone(), map: self.map }
    }
}

impl MapObj {
    /// The type of the map.
    pub closed spec fn spec_meta(&self) -> GosMetadata {
        self.meta
    }

    /// The value that reading an absent key gives.
    pub closed spec fn spec_default(&self) -> GosValue {
        self.default_val
    }

    /// The handle of the entries; a nil map has none.
    pub closed spec fn spec_map(&self) -> Option<GcKey> {
        self.map
    }

    /// The map has entries to point to, and the store holds them.
    pub open spec fn spec_wf(&self, gcos: &GcoVec) -> bool {
        self.spec_map() matches Some(k) && gcos.spec_is_table(k)
    }

    /// The entries.
    pub open spec fn spec_table(&self, gcos: &GcoVec) -> GosHashMap
        recommends
            self.spec_wf(gcos),
    {
        gcos.spec_table(self.spec_map().unwrap())
    }

    /// A map without entries; the entries get a new cell of the store.
    pub fn new(meta: GosMetadata, default_val: GosValue, gcos: &mut GcoVec) -> (m: MapObj)
        ensures
            m.spec_meta() == meta,
            m.spec_default() == default_val,
            m.spec_map() == Some(old(gcos)@.len() as usize),
            m.spec_wf(final(gcos)),
            m.spec_table(final(gcos)).entries@.len() == 0,
            forall|key: GosValue| !m.spec_table(final(gcos)).spec_contains(key),
            final(gcos).spec_extends(old(gcos)),
            final(gcos)@.len() == old(gcos)@.len() + 1,
    {
        let k = gcos.add(GcObj::Table(GosHashMap::new()));
        MapObj { meta, default_val, map: Some(k) }
    }

    /// The map made of its three parts.
    pub fn from_parts(meta: GosMetadata, default_val: GosValue, map: Option<GcKey>) -> (m: MapObj)
        ensures
            m.spec_meta() == meta,
            m.spec_default() == default_val,
            m.spec_map() == map,
    {
        MapObj { meta, default_val, map }
    }

    /// The nil map of a type.
    pub fn new_nil(meta: GosMetadata, default_val: GosValue) -> (m: MapObj)
        ensures
            m.spec_meta() == meta,
            m.spec_default() == default_val,
            m.spec_map() is None,
    {
        MapObj { meta, default_val, map: None }
    }

    /// The type of the map.
    pub fn meta(&self) -> (m: GosMetadata)
        ensures
            m == self.spec_meta(),
    {
        self.meta
    }

    /// The value that reading an absent key gives.
    pub fn default_val(&self) -> (v: &GosValue)
        ensures
            *v == self.spec_default(),
    {
        &self.default_val
    }

    /// Whether the map is nil.
    pub fn is_nil(&self) -> (b: bool)
        ensures
            b == (self.spec_map() is None),
    {
        self.map.is_none()
    }

    /// The handle of the entries, which copies of the map share.
    pub fn clone_inner(&self) -> (k: GcKey)
        requires
            self.spec_map() is Some,
        ensures
            Some(k) == self.spec_map(),
    {
        match self.map {
            Some(k) => k,
            None => vstd::pervasive::unreached(),
        }
    }

    /// The entries; a nil map has none to read.
    pub fn borrow_data<'a>(&self, gcos: &'a GcoVec) -> (t: &'a GosHashMap)
        requires
            self.spec_wf(gcos),
        ensures
            *t == self.spec_table(gcos),
    {
        match gcos.table(self.clone_inner()) {
            Some(t) => t,
            None => vstd::pervasive::unreached(),
        }
    }

    /// The entries, to be changed in place.
    pub fn borrow_data_mut<'a>(&self, gcos: &'a mut GcoVec) -> (t: &'a mut GosHashMap)
        requires
            self.spec_wf(old(gcos)),
        ensures
            *t == self.spec_table(old(gcos)),
            final(gcos).spec_same_but(old(gcos), self.spec_map().unwrap()),
            self.spec_wf(final(gcos)),
            self.spec_table(final(gcos)) == *final(t),
    {
        gcos.table_mut(self.clone_inner())
    }

    /// Puts a value under a key and zeros the value that the key had.
    pub fn insert(&self, key: GosValue, val: GosValue, gcos: &mut GcoVec) -> (prev: Option<
        GosValue,
    >)
        requires
            self.spec_wf(old(gcos)),
        ensures
            self.spec_wf(final(gcos)),
            final(gcos).spec_same_but(old(gcos), self.spec_map().unwrap()),
            self.spec_table(final(gcos)).entries@ == self.spec_table(
                old(gcos),
            ).spec_after_insert(key, val),
            self.spec_table(final(gcos)).spec_contains(key),
            self.spec_table(final(gcos)).spec_get(key) == val,
            prev == if self.spec_table(old(gcos)).spec_contains(key) {
                Some(self.spec_table(old(gcos)).spec_get(key))
            } else {
                None
            },
            forall|other: GosValue|
                !other.spec_identical(&key) ==> self.spec_table(final(gcos)).spec_position(other)
                    == self.spec_table(old(gcos)).spec_position(other),
            forall|other: GosValue|
                !other.spec_identical(&key) && self.spec_table(old(gcos)).spec_contains(other)
                    ==> self.spec_table(final(gcos)).spec_get(other) == self.spec_table(
                    old(gcos),
                ).spec_get(other),
    {
        let t = self.borrow_data_mut(gcos);
        t.insert(key, val)
    }

    /// The value under a key, or the map's default, which is not put into
    /// the map.
    pub fn get(&self, key: &GosValue, gcos: &GcoVec) -> (v: GosValue)
        requires
            self.spec_wf(gcos),
        ensures
            v == if self.spec_table(gcos).spec_contains(*key) {
                self.spec_table(gcos).spec_get(*key)
            } else {
                self.spec_default()
            },
    {
        let t = self.borrow_data(gcos);
        match t.get(key) {
            Some(v) => v.clone(),
            None => self.default_val.clone(),
        }
    }

    /// The value under a key, if the map holds the key.
    pub fn try_get(&self, key: &GosValue, gcos: &GcoVec) -> (v: Option<GosValue>)
        requires
            self.spec_wf(gcos),
        ensures
            v == if self.spec_table(gcos).spec_contains(*key) {
                Some(self.spec_table(gcos).spec_get(*key))
            } else {
                None
            },
    {
        let t = self.borrow_data(gcos);
        match t.get(key) {
            Some(v) => Some(v.clone()),
            None => None,
        }
    }

    /// Makes sure that the map holds the key: a key that it does not hold
    /// gets the map's default.
    pub fn touch_key(&self, key: &GosValue, gcos: &mut GcoVec)
        requires
            self.spec_wf(old(gcos)),
        ensures
            self.spec_wf(final(gcos)),
            final(gcos).spec_same_but(old(gcos), self.spec_map().unwrap()),
            self.spec_table(final(gcos)).spec_contains(*key),
            self.spec_table(final(gcos)).spec_get(*key) == if self.spec_table(
                old(gcos),
            ).spec_contains(*key) {
                self.spec_table(old(gcos)).spec_get(*key)
            } else {
                self.spec_default()
            },
            self.spec_table(old(gcos)).spec_contains(*key) ==> final(gcos)@ == old(gcos)@,
            !self.spec_table(old(gcos)).spec_contains(*key) ==> self.spec_table(
                final(gcos),
            ).entries@ == self.spec_table(old(gcos)).entries@.push((*key, self.spec_default())),
            forall|other: GosValue|
                !other.spec_identical(key) ==> self.spec_table(final(gcos)).spec_position(other)
                    == self.spec_table(old(gcos)).spec_position(other),
    {
        let found = self.borrow_data(gcos).get(key).is_some();
        if !found {
            let t = self.borrow_data_mut(gcos);
            t.insert(key.clone(), self.default_val.clone());
        }
    }

    /// The number of entries.
    pub fn len(&self, gcos: &GcoVec) -> (n: usize)
        requires
            self.spec_wf(gcos),
        ensures
            n == self.spec_table(gcos).entries@.len(),
    {
        self.borrow_data(gcos).len()
    }
}

/// An array: its type and the handle of its elements.
#[derive(Debug, Clone, Copy)]
pub struct ArrayObj {
    pub meta: GosMetadata,
    pub vec: GcKey,
}

impl ArrayObj {
    /// The store holds the elements.
    pub open spec fn spec_wf(&self, gcos: &GcoVec) -> bool {
        gcos.spec_is_buffer(self.vec)
    }

    /// The elements; none where the store does not hold them.
    pub open spec fn spec_data(&self, gcos: &GcoVec) -> Seq<GosValue> {
        gcos.spec_buffer(self.vec)
    }

    /// The array of the given elements, which get a new cell of the store.
    pub fn with_data(val: Vec<GosValue>, meta: GosMetadata, gcos: &mut GcoVec) -> (r: ArrayObj)
        ensures
            r.meta == meta,
            r.vec == old(gcos)@.len(),
            r.spec_wf(final(gcos)),
            r.spec_data(final(gcos)) == val@,
            final(gcos).spec_extends(old(gcos)),
            final(gcos)@.len() == old(gcos)@.len() + 1,
    {
        let k = gcos.add(GcObj::Buffer(val));
        ArrayObj { meta, vec: k }
    }

    /// The number of elements.
    pub fn len(&self, gcos: &GcoVec) -> (n: usize)
        ensures
            n == self.spec_data(gcos).len(),
    {
        match gcos.buffer(self.vec) {
            Some(v) => v.len(),
            None => 0,
        }
    }

    /// The elements.
    pub fn borrow_data<'a>(&self, gcos: &'a GcoVec) -> (v: &'a GosVec)
        requires
            self.spec_wf(gcos),
        ensures
            v@ == self.spec_data(gcos),
    {
        match gcos.buffer(self.vec) {
            Some(v) => v,
            None => vstd::pervasive::unreached(),
        }
    }

    /// The elements, to be changed in place.
    pub fn borrow_data_mut<'a>(&self, gcos: &'a mut GcoVec) -> (v: &'a mut GosVec)
        requires
            self.spec_wf(old(gcos)),
        ensures
            v@ == self.spec_data(old(gcos)),
            final(gcos).spec_same_but(old(gcos), self.vec),
            self.spec_wf(final(gcos)),
            self.spec_data(final(gcos)) == final(v)@,
    {
        gcos.buffer_mut(self.vec)
    }

    /// The element at a position, if there is one.
    pub fn get(&self, i: usize, gcos: &GcoVec) -> (r: Option<GosValue>)
        ensures
            r == if i < self.spec_data(gcos).len() {
                Some(self.spec_data(gcos)[i as int])
            } else {
                None
            },
    {
        match gcos.buffer(self.vec) {
            Some(v) => if i < v.len() {
                Some(v[i].clone())
            } else {
                None
            },
            None => None,
        }
    }

    /// Replaces the element at a position.
    pub fn set(&self, i: usize, val: GosValue, gcos: &mut GcoVec)
        requires
            i < self.spec_data(old(gcos)).len(),
        ensures
            self.spec_wf(final(gcos)),
            final(gcos).spec_same_but(old(gcos), self.vec),
            self.spec_data(final(gcos)) == self.spec_data(old(gcos)).update(i as int, val),
    {
        let v = gcos.buffer_mut(self.vec);
        v.set(i, val);
    }

    /// Replaces the elements by copies of another array's.
    pub fn set_from(&self, other: &ArrayObj, gcos: &mut GcoVec)
        requires
            self.spec_wf(old(gcos)),
            other.spec_wf(old(gcos)),
        ensures
            self.spec_wf(final(gcos)),
            final(gcos).spec_same_but(old(gcos), self.vec),
            self.spec_data(final(gcos)) == other.spec_data(old(gcos)),
    {
        let copy = clone_values(other.borrow_data(gcos));
        let v = gcos.buffer_mut(self.vec);
        *v = copy;
    }

    /// Whether two arrays have as many elements and hold, place by place,
    /// the same values.
    pub fn eq(&self, b: &ArrayObj, gcos: &GcoVec) -> (r: bool)
        ensures
            r == spec_same_values(self.spec_data(gcos), b.spec_data(gcos)),
    {
        match (gcos.buffer(self.vec), gcos.buffer(b.vec)) {
            (Some(x), Some(y)) => same_values(x, y),
            (Some(x), None) => x.len() == 0,
            (None, Some(y)) => y.len() == 0,
            (None, None) => true,
        }
    }
}

/// Whether two lists are as long and hold, place by place, the same values.
pub open spec fn spec_same_values(a: Seq<GosValue>, b: Seq<GosValue>) -> bool {
    &&& a.len() == b.len()
    &&& forall|i: int| 0 <= i < a.len() ==> (#[trigger] a[i]).spec_identical(&b[i])
}

/// Whether two lists are as long and hold, place by place, the same values.
pub fn same_values(a: &Vec<GosValue>, b: &Vec<GosValue>) -> (r: bool)
    ensures
        r == spec_same_values(a@, b@),
{
    if a.len() != b.len() {
        return false;
    }
    let mut i: usize = 0;
    while i < a.len()
        invariant
            i <= a@.len(),
            a@.len() == b@.len(),
            forall|j: int| 0 <= j < i ==> (#[trigger] a@[j]).spec_identical(&b@[j]),
        decreases a@.len() - i,
    {
        if !a[i].identical(&b[i]) {
            return false;
        }
        i += 1;
    }
    true
}

/// Below this capacity a slice that grows doubles its capacity; from it on
/// the capacity grows by a quarter.
pub const GROWTH_THRESHOLD: usize = 1024;

/// The capacity after one step of growth.
pub open spec fn spec_grow_step(cap: int) -> int {
    if cap == 0 {
        1
    } else if cap < GROWTH_THRESHOLD {
        cap * 2
    } else if cap + (cap + 3) / 4 > usize::MAX {
        usize::MAX as int
    } else {
        cap + (cap + 3) / 4
    }
}

/// The capacity after as many steps of growth as it takes to hold `len`
/// items.
pub open spec fn spec_grown_cap(cap: int, len: int) -> int
    decreases
            (if cap < len {
                len - cap
            } else {
                0
            }),
{
    if cap >= len || cap < 0 || len > usize::MAX || spec_grow_step(cap) <= cap {
        cap
    } else {
        spec_grown_cap(spec_grow_step(cap), len)
    }
}

/// A step of growth at least doubles a capacity below the threshold and
/// adds at least a quarter to one from the threshold on, as far as the
/// machine's integers go.
pub proof fn lemma_grow_step(cap: int)
    requires
        0 <= cap <= usize::MAX,
    ensures
        cap < spec_grow_step(cap) || cap == usize::MAX,
        spec_grow_step(cap) <= usize::MAX,
        0 < cap < GROWTH_THRESHOLD ==> spec_grow_step(cap) >= 2 * cap,
        cap >= GROWTH_THRESHOLD && spec_grow_step(cap) < usize::MAX ==> 4 * spec_grow_step(cap)
            >= 5 * cap,
{
}

/// A capacity that had to grow holds the items, and is at least one step of
/// growth above what it was.
pub proof fn lemma_grown_cap(cap: int, len: int)
    requires
        0 <= cap < len <= usize::MAX,
    ensures
        len <= spec_grown_cap(cap, len) <= usize::MAX,
        spec_grown_cap(cap, len) >= spec_grow_step(cap),
    decreases len - cap,
{
    lemma_grow_step(cap);
    let next = spec_grow_step(cap);
    assert(cap < next);
    assert(spec_grown_cap(cap, len) == spec_grown_cap(next, len));
    if next < len {
        lemma_grown_cap(next, len);
        lemma_grow_step(next);
    } else {
        assert(spec_grown_cap(next, len) == next);
    }
}

/// The capacity after as many steps of growth as it takes to hold `len`
/// items.
pub fn grown_cap(cap: usize, len: usize) -> (r: usize)
    ensures
        r == spec_grown_cap(cap as int, len as int),
        r >= len,
        r >= cap,
{
    let mut c: usize = cap;
    while c < len
        invariant
            cap <= c,
            spec_grown_cap(c as int, len as int) == spec_grown_cap(cap as int, len as int),
        decreases
                (if c < len {
                    len - c
                } else {
                    0
                }),
    {
        let ghost prev = c;
        proof {
            lemma_grow_step(c as int);
            assert(c < spec_grow_step(c as int));
            assert(spec_grown_cap(c as int, len as int) == spec_grown_cap(
                spec_grow_step(c as int),
                len as int,
            ));
        }
        if c == 0 {
            c = 1;
        } else if c < GROWTH_THRESHOLD {
            c = c * 2;
        } else {
            let quarter: usize = (c - 1) / 4 + 1;
            assert(quarter == (c + 3) / 4);
            c = if c > usize::MAX - quarter {
                usize::MAX
            } else {
                c + quarter
            };
        }
        assert(c == spec_grow_step(prev as int));
    }
    assert(spec_grown_cap(c as int, len as int) == c);
    c
}

/// A slice: a window into shared elements, with the capacity up to which it
/// may grow in place. A nil slice has no elements to point to.
#[derive(Debug, Clone, Copy)]
pub struct SliceObj {
    pub meta: GosMetadata,
    begin: usize,
    end: usize,
    soft_cap: usize,
    pub vec: Option<GcKey>,
}

impl SliceObj {
    #[verifier::type_invariant]
    spec fn inv(&self) -> bool {
        self.begin <= self.end <= self.soft_cap
    }

    /// The type of the slice.
    pub closed spec fn spec_meta(&self) -> GosMetadata {
        self.meta
    }

    /// Where the window begins in the elements.
    pub closed spec fn spec_begin(&self) -> usize {
        self.begin
    }

    /// Where the window ends in the elements.
    pub closed spec fn spec_end(&self) -> usize {
        self.end
    }

    /// Up to where the window may grow in place.
    pub closed spec fn spec_soft_cap(&self) -> usize {
        self.soft_cap
    }

    /// The handle of the elements; a nil slice has none.
    pub closed spec fn spec_vec(&self) -> Option<GcKey> {
        self.vec
    }

    /// The slice made of the five parts.
    pub closed spec fn spec_of(
        meta: GosMetadata,
        begin: usize,
        end: usize,
        soft_cap: usize,
        vec: Option<GcKey>,
    ) -> SliceObj {
        SliceObj { meta, begin, end, soft_cap, vec }
    }

    /// A slice is its five parts.
    pub proof fn lemma_parts(&self)
        ensures
            *self == Self::spec_of(
                self.spec_meta(),
                self.spec_begin(),
                self.spec_end(),
                self.spec_soft_cap(),
                self.spec_vec(),
            ),
    {
    }

    /// The parts of the slice made of five parts.
    pub proof fn lemma_of(
        meta: GosMetadata,
        begin: usize,
        end: usize,
        soft_cap: usize,
        vec: Option<GcKey>,
    )
        ensures
            Self::spec_of(meta, begin, end, soft_cap, vec).spec_meta() == meta,
            Self::spec_of(meta, begin, end, soft_cap, vec).spec_begin() == begin,
            Self::spec_of(meta, begin, end, soft_cap, vec).spec_end() == end,
            Self::spec_of(meta, begin, end, soft_cap, vec).spec_soft_cap() == soft_cap,
            Self::spec_of(meta, begin, end, soft_cap, vec).spec_vec() == vec,
    {
    }

    /// The window lies in order below the capacity.
    pub open spec fn spec_bounds(&self) -> bool {
        self.spec_begin() <= self.spec_end() <= self.spec_soft_cap()
    }

    /// The number of items in the window.
    pub open spec fn spec_len(&self) -> int {
        self.spec_end() - self.spec_begin()
    }

    /// The number of items that the window can hold without a new buffer.
    pub open spec fn spec_cap(&self) -> int {
        self.spec_soft_cap() - self.spec_begin()
    }

    /// The slice has elements to point to, the store holds them, and the
    /// window lies inside them.
    pub open spec fn spec_wf(&self, gcos: &GcoVec) -> bool {
        &&& self.spec_bounds()
        &&& self.spec_vec() matches Some(k) && gcos.spec_is_buffer(k) && self.spec_end()
            <= gcos.spec_buffer(k).len()
    }

    /// All elements that the slice points into, not only its window.
    pub open spec fn spec_data(&self, gcos: &GcoVec) -> Seq<GosValue> {
        match self.spec_vec() {
            Some(k) => gcos.spec_buffer(k),
            None => Seq::empty(),
        }
    }

    /// The items in the window.
    pub open spec fn spec_window(&self, gcos: &GcoVec) -> Seq<GosValue>
        recommends
            self.spec_wf(gcos),
    {
        self.spec_data(gcos).subrange(self.spec_begin() as int, self.spec_end() as int)
    }

    /// A slice of `len` copies of a value, with room for `cap` items; the
    /// elements get a new cell of the store.
    pub fn new(
        len: usize,
        cap: usize,
        meta: GosMetadata,
        default_val: Option<&GosValue>,
        gcos: &mut GcoVec,
    ) -> (r: SliceObj)
        requires
            cap >= len,
            len > 0 ==> default_val is Some,
        ensures
            r == Self::spec_of(meta, 0, len, cap, Some(old(gcos)@.len() as usize)),
            r.spec_wf(final(gcos)),
            r.spec_data(final(gcos)).len() == len,
            forall|i: int| 0 <= i < len ==> r.spec_data(final(gcos))[i] == *default_val.unwrap(),
            final(gcos).spec_extends(old(gcos)),
            final(gcos)@.len() == old(gcos)@.len() + 1,
    {
        let mut val: GosVec = Vec::with_capacity(cap);
        let mut i: usize = 0;
        while i < len
            invariant
                i <= len,
                len > 0 ==> default_val is Some,
                val@.len() == i,
                forall|j: int| 0 <= j < i ==> val@[j] == *default_val.unwrap(),
            decreases len - i,
        {
            match default_val {
                Some(v) => val.push(v.clone()),
                None => {},
            }
            i += 1;
        }
        let k = gcos.add(GcObj::Buffer(val));
        let r = SliceObj { meta, begin: 0, end: len, soft_cap: cap, vec: Some(k) };
        r
    }

    /// The slice over the given items, which get a new cell of the store.
    pub fn with_data(val: Vec<GosValue>, meta: GosMetadata, gcos: &mut GcoVec) -> (r: SliceObj)
        ensures
            r == Self::spec_of(
                meta,
                0,
                val@.len() as usize,
                val@.len() as usize,
                Some(old(gcos)@.len() as usize),
            ),
            r.spec_wf(final(gcos)),
            r.spec_data(final(gcos)) == val@,
            r.spec_window(final(gcos)) == val@,
            final(gcos).spec_extends(old(gcos)),
            final(gcos)@.len() == old(gcos)@.len() + 1,
    {
        let n = val.len();
        let ghost items = val@;
        let k = gcos.add(GcObj::Buffer(val));
        let r = SliceObj { meta, begin: 0, end: n, soft_cap: n, vec: Some(k) };
        proof {
            assert(r.spec_window(gcos) =~= items);
        }
        r
    }

    /// A slice over an array that shares the array's elements. The end
    /// bound is normalised over the array's length, so that `-1` is its end,
    /// and the begin bound is brought into the range up to that end.
    pub fn with_array(arr: &ArrayObj, begin: isize, end: isize, gcos: &GcoVec) -> (r: SliceObj)
        requires
            arr.meta is NonPtr,
        ensures
            ({
                let len = arr.spec_data(gcos).len();
                let e = spec_norm_bound(len as int, end as int);
                let b = spec_clamp_begin(begin as int, e);
                r == Self::spec_of(
                    GosMetadata::NonPtr(arr.meta.spec_key(), crate::metadata::MetaCategory::Default),
                    b as usize,
                    e as usize,
                    len as usize,
                    Some(arr.vec),
                )
            }),
            r.spec_bounds(),
            arr.spec_wf(gcos) ==> r.spec_wf(gcos),
    {
        let meta = GosMetadata::new_slice_from_array(arr.meta);
        let len = arr.len(gcos);
        let ei = norm_bound(len, end);
        let bi = clamp_begin(begin, ei);
        SliceObj { meta, begin: bi, end: ei, soft_cap: len, vec: Some(arr.vec) }
    }

    /// The slice made of its five parts.
    pub fn from_parts(
        meta: GosMetadata,
        begin: usize,
        end: usize,
        soft_cap: usize,
        vec: Option<GcKey>,
    ) -> (r: SliceObj)
        requires
            begin <= end <= soft_cap,
        ensures
            r == Self::spec_of(meta, begin, end, soft_cap, vec),
            r.spec_meta() == meta,
            r.spec_begin() == begin,
            r.spec_end() == end,
            r.spec_soft_cap() == soft_cap,
            r.spec_vec() == vec,
    {
        SliceObj { meta, begin, end, soft_cap, vec }
    }

    /// The nil slice of a type.
    pub fn new_nil(meta: GosMetadata) -> (r: SliceObj)
        ensures
            r == Self::spec_of(meta, 0, 0, 0, None),
    {
        SliceObj { meta, begin: 0, end: 0, soft_cap: 0, vec: None }
    }

    /// Takes the window of another slice and replaces the elements by
    /// copies of the other slice's.
    pub fn set_from(&mut self, other: &SliceObj, gcos: &mut GcoVec)
        requires
            old(self).spec_wf(old(gcos)),
            other.spec_wf(old(gcos)),
        ensures
            *final(self) == Self::spec_of(
                old(self).spec_meta(),
                other.spec_begin(),
                other.spec_end(),
                other.spec_soft_cap(),
                old(self).spec_vec(),
            ),
            final(self).spec_wf(final(gcos)),
            final(gcos).spec_same_but(old(gcos), old(self).spec_vec().unwrap()),
            final(self).spec_data(final(gcos)) == other.spec_data(old(gcos)),
    {
        proof {
            use_type_invariant(other);
        }
        let copy = clone_values(other.borrow_data(gcos));
        *self = SliceObj {
            meta: self.meta,
            begin: other.begin,
            end: other.end,
            soft_cap: other.soft_cap,
            vec: self.vec,
        };
        match self.vec {
            Some(k) => {
                let v = gcos.buffer_mut(k);
                *v = copy;
            },
            None => {},
        }
    }

    /// Whether the slice is nil.
    pub fn is_nil(&self) -> (b: bool)
        ensures
            b == (self.spec_vec() is None),
    {
        self.vec.is_none()
    }

    /// The type of the slice.
    pub fn meta(&self) -> (m: GosMetadata)
        ensures
            m == self.spec_meta(),
    {
        self.meta
    }

    /// The handle of the elements.
    pub fn vec(&self) -> (k: Option<GcKey>)
        ensures
            k == self.spec_vec(),
    {
        self.vec
    }

    /// Where the window begins.
    pub fn begin(&self) -> (n: usize)
        ensures
            n == self.spec_begin(),
            self.spec_bounds(),
    {
        proof {
            use_type_invariant(self);
        }
        self.begin
    }

    /// Where the window ends.
    pub fn end(&self) -> (n: usize)
        ensures
            n == self.spec_end(),
            self.spec_bounds(),
    {
        proof {
            use_type_invariant(self);
        }
        self.end
    }

    /// Up to where the window may grow in place.
    pub fn soft_cap(&self) -> (n: usize)
        ensures
            n == self.spec_soft_cap(),
            self.spec_bounds(),
    {
        proof {
            use_type_invariant(self);
        }
        self.soft_cap
    }

    /// The number of items in the window.
    pub fn len(&self) -> (n: usize)
        ensures
            n == self.spec_len(),
            self.spec_bounds(),
    {
        self.end() - self.begin()
    }

    /// The number of items that the window can hold without a new buffer.
    pub fn cap(&self) -> (n: usize)
        ensures
            n == self.spec_cap(),
            self.spec_bounds(),
    {
        self.soft_cap() - self.begin()
    }

    /// A view for reading the window.
    pub fn borrow<'a>(&self, gcos: &'a GcoVec) -> (r: SliceRef<'a>)
        requires
            self.spec_wf(gcos),
        ensures
            r.spec_window() == self.spec_window(gcos),
            r.spec_data() == self.spec_data(gcos),
            r.spec_begin() == self.spec_begin(),
    {
        SliceRef::new(self, gcos)
    }

    /// All elements that the slice points into; a nil slice has none to
    /// read.
    pub fn borrow_data<'a>(&self, gcos: &'a GcoVec) -> (v: &'a GosVec)
        requires
            self.spec_vec() matches Some(k) && gcos.spec_is_buffer(k),
        ensures
            v@ == self.spec_data(gcos),
    {
        match self.vec {
            Some(k) => match gcos.buffer(k) {
                Some(v) => v,
                None => vstd::pervasive::unreached(),
            },
            None => vstd::pervasive::unreached(),
        }
    }

    /// All elements that the slice points into, to be changed in place.
    pub fn borrow_data_mut<'a>(&self, gcos: &'a mut GcoVec) -> (v: &'a mut GosVec)
        requires
            self.spec_vec() matches Some(k) && old(gcos).spec_is_buffer(k),
        ensures
            v@ == self.spec_data(old(gcos)),
            final(gcos).spec_same_but(old(gcos), self.spec_vec().unwrap()),
            final(gcos).spec_is_buffer(self.spec_vec().unwrap()),
            self.spec_data(final(gcos)) == final(v)@,
    {
        match self.vec {
            Some(k) => gcos.buffer_mut(k),
            None => vstd::pervasive::unreached(),
        }
    }

    /// The item at a position of the window; nothing beyond the window's
    /// end, whatever the elements hold there.
    pub fn get(&self, i: usize, gcos: &GcoVec) -> (r: Option<GosValue>)
        ensures
            r == if i < self.spec_len() && self.spec_begin() + i < self.spec_data(gcos).len() {
                Some(self.spec_data(gcos)[self.spec_begin() + i])
            } else {
                None
            },
            self.spec_wf(gcos) ==> (r is Some <==> i < self.spec_window(gcos).len()),
            self.spec_wf(gcos) && i < self.spec_window(gcos).len() ==> r == Some(
                self.spec_window(gcos)[i as int],
            ),
    {
        proof {
            use_type_invariant(self);
        }
        match self.vec {
            Some(k) => match gcos.buffer(k) {
                Some(v) => if i < self.end - self.begin && i < v.len() && self.begin < v.len()
                    - i {
                    Some(v[self.begin + i].clone())
                } else {
                    None
                },
                None => None,
            },
            None => None,
        }
    }

    /// Replaces the element at a position counted from the window's begin.
    pub fn set(&self, i: usize, val: GosValue, gcos: &mut GcoVec)
        requires
            self.spec_begin() + i < self.spec_data(old(gcos)).len(),
        ensures
            final(gcos).spec_same_but(old(gcos), self.spec_vec().unwrap()),
            self.spec_data(final(gcos)) == self.spec_data(old(gcos)).update(
                self.spec_begin() + i,
                val,
            ),
            self.spec_wf(old(gcos)) ==> self.spec_wf(final(gcos)),
    {
        match self.vec {
            Some(k) => {
                let v = gcos.buffer_mut(k);
                let n = v.len();
                assert(self.begin + i < n);
                v.set(self.begin + i, val);
            },
            None => {},
        }
    }

    /// A window into this one that shares the elements. The end bound is
    /// normalised over the length and the capacity bound over the capacity,
    /// so that `-1` is the end of each; then the end is brought below the
    /// capacity bound and the begin below the end.
    pub fn slice(&self, begin: isize, end: isize, max: isize) -> (r: SliceObj)
        ensures
            ({
                let m = spec_norm_bound(self.spec_cap(), max as int);
                let e0 = spec_norm_bound(self.spec_len(), end as int);
                let e = if e0 > m {
                    m
                } else {
                    e0
                };
                let b = spec_clamp_begin(begin as int, e);
                r == Self::spec_of(
                    self.spec_meta(),
                    (self.spec_begin() + b) as usize,
                    (self.spec_begin() + e) as usize,
                    (self.spec_begin() + m) as usize,
                    self.spec_vec(),
                )
            }),
            r.spec_bounds(),
            r.spec_end() <= self.spec_soft_cap(),
    {
        let len = self.len();
        let cap = self.cap();
        let mi = norm_bound(cap, max);
        let e0 = norm_bound(len, end);
        let ei = if e0 > mi {
            mi
        } else {
            e0
        };
        let bi = clamp_begin(begin, ei);
        SliceObj {
            meta: self.meta,
            begin: self.begin + bi,
            end: self.begin + ei,
            soft_cap: self.begin + mi,
            vec: self.vec,
        }
    }

    /// Re-slicing with all bounds left out gives the same window on the
    /// same elements, with the same length and capacity.
    pub proof fn lemma_full_reslice(&self)
        requires
            self.spec_bounds(),
        ensures
            ({
                let m = spec_norm_bound(self.spec_cap(), -1);
                let e = spec_norm_bound(self.spec_len(), -1);
                &&& m == self.spec_cap()
                &&& e == self.spec_len()
                &&& spec_clamp_begin(0, e) == 0
                &&& Self::spec_of(
                    self.spec_meta(),
                    (self.spec_begin() + 0) as usize,
                    (self.spec_begin() + e) as usize,
                    (self.spec_begin() + m) as usize,
                    self.spec_vec(),
                ) == *self
            }),
    {
        let c = self.spec_cap();
        let l = self.spec_len();
        vstd::arithmetic::div_mod::lemma_fundamental_div_mod_converse(c + 1 - 1, c + 1, 0, c);
        vstd::arithmetic::div_mod::lemma_fundamental_div_mod_converse(l + 1 - 1, l + 1, 0, l);
    }

    /// Copies of all elements that the slice points into.
    pub fn get_vec(&self, gcos: &GcoVec) -> (r: Vec<GosValue>)
        ensures
            r@ == self.spec_data(gcos),
    {
        match self.vec {
            Some(k) => match gcos.buffer(k) {
                Some(v) => clone_values(v),
                None => Vec::new(),
            },
            None => Vec::new(),
        }
    }

    /// Makes room for `len` items: a slice whose capacity is too small gets
    /// a new buffer with copies of the items of its window, and the window
    /// moves to the buffer's begin.
    fn try_grow_vec(&mut self, len: usize, gcos: &mut GcoVec)
        requires
            old(self).spec_wf(old(gcos)),
        ensures
            final(self).spec_wf(final(gcos)),
            final(self).spec_window(final(gcos)) == old(self).spec_window(old(gcos)),
            final(self).spec_len() == old(self).spec_len(),
            final(self).spec_cap() >= len,
            final(self).spec_meta() == old(self).spec_meta(),
            final(gcos).spec_extends(old(gcos)),
            if old(self).spec_cap() >= len {
                *final(self) == *old(self) && final(gcos)@ == old(gcos)@
            } else {
                *final(self) == Self::spec_of(
                    old(self).spec_meta(),
                    0,
                    old(self).spec_len() as usize,
                    spec_grown_cap(old(self).spec_cap(), len as int) as usize,
                    Some(old(gcos)@.len() as usize),
                ) && final(gcos)@.len() == old(gcos)@.len() + 1 && final(self).spec_data(
                    final(gcos),
                ) == old(self).spec_window(old(gcos))
            },
    {
        let cap = self.cap();
        if cap >= len {
            return ;
        }
        self.grow_vec(cap, len, gcos);
    }

    fn grow_vec(&mut self, cap: usize, len: usize, gcos: &mut GcoVec)
        requires
            old(self).spec_wf(old(gcos)),
            cap == old(self).spec_cap(),
            cap < len,
        ensures
            *final(self) == Self::spec_of(
                old(self).spec_meta(),
                0,
                old(self).spec_len() as usize,
                spec_grown_cap(cap as int, len as int) as usize,
                Some(old(gcos)@.len() as usize),
            ),
            final(self).spec_wf(final(gcos)),
            final(self).spec_window(final(gcos)) == old(self).spec_window(old(gcos)),
            final(self).spec_data(final(gcos)) == old(self).spec_window(old(gcos)),
            final(self).spec_cap() >= len,
            final(gcos).spec_extends(old(gcos)),
            final(gcos)@.len() == old(gcos)@.len() + 1,
    {
        let new_cap = grown_cap(cap, len);
        let data_len = self.len();
        let ghost window = self.spec_window(gcos);
        let mut vec = clone_range(self.borrow_data(gcos), self.begin, self.end);
        vec.reserve(new_cap - data_len);
        let k = gcos.add(GcObj::Buffer(vec));
        *self = SliceObj {
            meta: self.meta,
            begin: 0,
            end: data_len,
            soft_cap: new_cap,
            vec: Some(k),
        };
        proof {
            assert(self.spec_window(gcos) =~= window);
            assert(self.spec_data(gcos) =~= window);
        }
    }

    /// Appends an item to the window. Where the capacity does not reach,
    /// the slice first gets a new buffer with the items of the window, in
    /// order and from the buffer's begin: the capacity doubles while it is
    /// below the threshold and grows by a quarter from there on (see
    /// `lemma_grow_step`).
    pub fn push(&mut self, val: GosValue, gcos: &mut GcoVec)
        requires
            old(self).spec_wf(old(gcos)),
            old(self).spec_len() < usize::MAX,
        ensures
            final(self).spec_wf(final(gcos)),
            final(self).spec_window(final(gcos)) == old(self).spec_window(old(gcos)).push(val),
            final(self).spec_len() == old(self).spec_len() + 1,
            final(self).spec_meta() == old(self).spec_meta(),
            if old(self).spec_cap() > old(self).spec_len() {
                &&& final(self).spec_vec() == old(self).spec_vec()
                &&& final(self).spec_begin() == old(self).spec_begin()
                &&& final(self).spec_soft_cap() == old(self).spec_soft_cap()
                &&& final(gcos).spec_same_but(old(gcos), old(self).spec_vec().unwrap())
            } else {
                &&& final(self).spec_vec() == Some(old(gcos)@.len() as usize)
                &&& final(self).spec_begin() == 0
                &&& final(self).spec_cap() == spec_grown_cap(
                    old(self).spec_cap(),
                    old(self).spec_len() + 1,
                )
                &&& final(self).spec_cap() >= spec_grow_step(old(self).spec_cap())
                &&& final(gcos).spec_extends(old(gcos))
            },
            final(self).spec_cap() >= final(self).spec_len(),
    {
        let ghost window = self.spec_window(gcos);
        let ghost before = *self;
        let n = self.len();
        let base = gcos.len();
        self.try_grow_vec(n + 1, gcos);
        proof {
            before.lemma_parts();
            self.lemma_parts();
            if before.spec_cap() < n + 1 {
                lemma_grown_cap(before.spec_cap(), n + 1);
                Self::lemma_of(
                    before.spec_meta(),
                    0,
                    n,
                    spec_grown_cap(before.spec_cap(), n + 1) as usize,
                    Some(base),
                );
            }
        }
        let end = self.end;
        let ghost mid = *gcos;
        match self.vec {
            Some(k) => {
                let v = gcos.buffer_mut(k);
                if end < v.len() {
                    v.set(end, val);
                } else {
                    v.push(val);
                }
            },
            None => {},
        }
        *self = SliceObj {
            meta: self.meta,
            begin: self.begin,
            end: end + 1,
            soft_cap: self.soft_cap,
            vec: self.vec,
        };
        proof {
            assert(self.spec_window(gcos) =~= window.push(val));
            if before.spec_cap() <= before.spec_len() {
                lemma_grown_cap(before.spec_cap(), n + 1);
                gcos.lemma_change_above(&mid, old(gcos), base);
            } else {
                assert(mid@ == old(gcos)@);
            }
        }
    }

    /// Appends the items of a list to the window and leaves the list empty.
    pub fn append(&mut self, vals: &mut GosVec, gcos: &mut GcoVec)
        requires
            old(self).spec_wf(old(gcos)),
            old(self).spec_len() + old(vals)@.len() <= usize::MAX,
        ensures
            final(vals)@.len() == 0,
            final(self).spec_wf(final(gcos)),
            final(self).spec_window(final(gcos)) == old(self).spec_window(old(gcos)) + old(
                vals,
            )@,
            final(self).spec_len() == old(self).spec_len() + old(vals)@.len(),
            final(self).spec_meta() == old(self).spec_meta(),
            if old(self).spec_cap() >= old(self).spec_len() + old(vals)@.len() {
                &&& final(self).spec_vec() == old(self).spec_vec()
                &&& final(self).spec_begin() == old(self).spec_begin()
                &&& final(self).spec_soft_cap() == old(self).spec_soft_cap()
                &&& final(gcos).spec_same_but(old(gcos), old(self).spec_vec().unwrap())
            } else {
                &&& final(self).spec_vec() == Some(old(gcos)@.len() as usize)
                &&& final(self).spec_begin() == 0
                &&& final(self).spec_cap() == spec_grown_cap(
                    old(self).spec_cap(),
                    old(self).spec_len() + old(vals)@.len(),
                )
                &&& final(self).spec_cap() >= spec_grow_step(old(self).spec_cap())
                &&& final(gcos).spec_extends(old(gcos))
            },
            final(self).spec_cap() >= final(self).spec_len(),
    {
        let ghost window = self.spec_window(gcos);
        let ghost before = *self;
        let ghost items = vals@;
        let n = self.len();
        let new_len = n + vals.len();
        let base = gcos.len();
        self.try_grow_vec(new_len, gcos);
        proof {
            before.lemma_parts();
            self.lemma_parts();
            if before.spec_cap() < new_len {
                lemma_grown_cap(before.spec_cap(), new_len as int);
                Self::lemma_of(
                    before.spec_meta(),
                    0,
                    n,
                    spec_grown_cap(before.spec_cap(), new_len as int) as usize,
                    Some(base),
                );
            }
        }
        let end = self.end;
        let ghost mid = *gcos;
        match self.vec {
            Some(k) => {
                let v = gcos.buffer_mut(k);
                v.truncate(end);
                v.append(vals);
            },
            None => {},
        }
        *self = SliceObj {
            meta: self.meta,
            begin: self.begin,
            end: self.begin + new_len,
            soft_cap: self.soft_cap,
            vec: self.vec,
        };
        proof {
            assert(self.spec_window(gcos) =~= window + items);
            if before.spec_cap() < before.spec_len() + items.len() {
                lemma_grown_cap(before.spec_cap(), new_len as int);
                gcos.lemma_change_above(&mid, old(gcos), base);
            } else {
                assert(mid@ == old(gcos)@);
            }
        }
    }
}

/// A view for reading the window of a slice.
pub struct SliceRef<'a> {
    vec_ref: &'a GosVec,
    begin: usize,
    end: usize,
}

impl<'a> SliceRef<'a> {
    #[verifier::type_invariant]
    spec fn inv(&self) -> bool {
        self.begin <= self.end <= self.vec_ref@.len()
    }

    /// All elements that the slice points into.
    pub closed spec fn spec_data(&self) -> Seq<GosValue> {
        self.vec_ref@
    }

    /// Where the window begins.
    pub closed spec fn spec_begin(&self) -> usize {
        self.begin
    }

    /// The items in the window.
    pub closed spec fn spec_window(&self) -> Seq<GosValue> {
        self.vec_ref@.subrange(self.begin as int, self.end as int)
    }

    /// The view of a slice's window.
    pub fn new(s: &SliceObj, gcos: &'a GcoVec) -> (r: SliceRef<'a>)
        requires
            s.spec_wf(gcos),
        ensures
            r.spec_window() == s.spec_window(gcos),
            r.spec_data() == s.spec_data(gcos),
            r.spec_begin() == s.spec_begin(),
    {
        proof {
            use_type_invariant(s);
        }
        SliceRef { vec_ref: s.borrow_data(gcos), begin: s.begin(), end: s.end() }
    }

    /// The items in the window, in order.
    pub fn iter(&self) -> (r: &[GosValue])
        ensures
            r@ == self.spec_window(),
    {
        proof {
            use_type_invariant(self);
        }
        vstd::slice::slice_subrange(self.vec_ref.as_slice(), self.begin, self.end)
    }

    /// The item at a position of the window; nothing beyond the window's
    /// end.
    pub fn get(&self, i: usize) -> (r: Option<&GosValue>)
        ensures
            r is Some <==> i < self.spec_window().len(),
            r matches Some(v) ==> *v == self.spec_window()[i as int],
    {
        proof {
            use_type_invariant(self);
        }
        if i < self.end - self.begin {
            Some(&self.vec_ref[self.begin + i])
        } else {
            None
        }
    }
}

/// A struct: its type and its fields.
#[derive(Debug)]
pub struct StructObj {
    pub meta: GosMetadata,
    pub fields: Vec<GosValue>,
}

impl Clone for StructObj {
    /// A struct with copies of the fields; a composite field's copy shares
    /// the object.
    fn clone(&self) -> (r: Self)
        ensures
            r.meta == self.meta,
            r.fields@ == self.fields@,
    {
        StructObj { meta: self.meta, fields: clone_values(&self.fields) }
    }
}

impl StructObj {
    /// Whether two structs have as many fields and hold, place by place,
    /// the same values.
    pub fn eq(&self, other: &StructObj) -> (r: bool)
        ensures
            r == spec_same_values(self.fields@, other.fields@),
    {
        same_values(&self.fields, &other.fields)
    }
}

/// Handle of an object that foreign code owns.
#[derive(Clone, Copy, Debug, PartialEq, Eq, Structural)]
pub struct FfiKey {
    pub id: usize,
}

/// A foreign object behind an interface, with the methods it offers.
#[derive(Debug)]
pub struct UnderlyingFfi {
    pub ffi_obj: FfiKey,
    pub methods: Vec<(String, GosMetadata)>,
}

impl UnderlyingFfi {
    pub fn new(obj: FfiKey, methods: Vec<(String, GosMetadata)>) -> (r: UnderlyingFfi)
        ensures
            r.ffi_obj == obj,
            r.methods == methods,
    {
        UnderlyingFfi { ffi_obj: obj, methods }
    }
}

/// What an interface value holds: nothing, a value with the code of the
/// interface's methods for it, or a foreign object.
#[derive(Debug)]
pub enum IfaceUnderlying {
    Empty,
    Gos(GosValue, Option<Vec<FunctionKey>>),
    Ffi(UnderlyingFfi),
}

impl IfaceUnderlying {
    /// Whether two interface values hold the same: both nothing, the same
    /// value, or the same foreign object.
    pub open spec fn spec_eq(&self, other: &IfaceUnderlying) -> bool {
        match (self, other) {
            (IfaceUnderlying::Empty, IfaceUnderlying::Empty) => true,
            (IfaceUnderlying::Gos(x, _), IfaceUnderlying::Gos(y, _)) => x.spec_identical(y),
            (IfaceUnderlying::Ffi(x), IfaceUnderlying::Ffi(y)) => x.ffi_obj == y.ffi_obj,
            _ => false,
        }
    }

    #[verifier::when_used_as_spec(spec_eq)]
    pub fn eq(&self, other: &IfaceUnderlying) -> (r: bool)
        ensures
            r == self.spec_eq(other),
    {
        match (self, other) {
            (IfaceUnderlying::Empty, IfaceUnderlying::Empty) => true,
            (IfaceUnderlying::Gos(x, _), IfaceUnderlying::Gos(y, _)) => x.identical(y),
            (IfaceUnderlying::Ffi(x), IfaceUnderlying::Ffi(y)) => x.ffi_obj == y.ffi_obj,
            _ => false,
        }
    }
}

/// An interface value.
#[derive(Debug)]
pub struct InterfaceObj {
    pub meta: GosMetadata,
    underlying: IfaceUnderlying,
}

impl InterfaceObj {
    /// The type of the interface.
    pub closed spec fn spec_meta(&self) -> GosMetadata {
        self.meta
    }

    /// What the interface value holds.
    pub closed spec fn spec_underlying(&self) -> IfaceUnderlying {
        self.underlying
    }

    pub fn new(meta: GosMetadata, underlying: IfaceUnderlying) -> (r: InterfaceObj)
        ensures
            r.spec_meta() == meta,
            r.spec_underlying() == underlying,
    {
        InterfaceObj { meta, underlying }
    }

    /// What the interface value holds.
    pub fn underlying(&self) -> (u: &IfaceUnderlying)
        ensures
            *u == self.spec_underlying(),
    {
        &self.underlying
    }

    /// Replaces what the interface value holds.
    pub fn set_underlying(&mut self, v: IfaceUnderlying)
        ensures
            final(self).spec_meta() == old(self).spec_meta(),
            final(self).spec_underlying() == v,
    {
        self.underlying = v;
    }

    /// The value that the interface holds, if it holds a value of the
    /// language.
    pub fn underlying_value(&self) -> (v: Option<&GosValue>)
        ensures
            match v {
                Some(x) => self.spec_underlying() is Gos && *x == self.spec_underlying()->Gos_0,
                None => !(self.spec_underlying() is Gos),
            },
    {
        match self.underlying() {
            IfaceUnderlying::Gos(v, _) => Some(v),
            _ => None,
        }
    }

    /// Whether the interface value holds nothing.
    pub fn is_nil(&self) -> (b: bool)
        ensures
            b == (self.spec_underlying() is Empty),
    {
        match self.underlying() {
            IfaceUnderlying::Empty => true,
            _ => false,
        }
    }

    /// Whether two interface values hold the same.
    pub fn eq(&self, other: &InterfaceObj) -> (r: bool)
        ensures
            r == self.spec_underlying().spec_eq(&other.spec_underlying()),
    {
        self.underlying().eq(other.underlying())
    }
}

/// The state of a channel as this layer sees it: a bounded queue that can be
/// closed. Suspending and resuming the goroutines is the scheduler's part.
#[derive(Debug)]
pub struct Channel {
    pub cap: usize,
    pub queue: Vec<GosValue>,
    pub closed: bool,
}

/// What a step on a channel asks of the scheduler.
#[derive(Debug)]
pub enum ChanStep {
    /// The value was sent, or this value was received.
    Done(Option<GosValue>),
    /// The goroutine has to wait and try again.
    Suspend,
    /// The channel is closed, and empty where the step was a receive.
    Closed,
}

/// A channel value.
#[derive(Debug)]
pub struct ChannelObj {
    pub meta: GosMetadata,
    pub chan: Channel,
}

impl ChannelObj {
    /// An open, empty channel with room for `cap` values.
    pub fn new(meta: GosMetadata, cap: usize) -> (r: ChannelObj)
        ensures
            r.meta == meta,
            r.chan.cap == cap,
            r.chan.queue@.len() == 0,
            !r.chan.closed,
    {
        ChannelObj { meta, chan: Channel { cap, queue: Vec::new(), closed: false } }
    }

    /// The number of values that wait in the channel.
    pub fn len(&self) -> (n: usize)
        ensures
            n == self.chan.queue@.len(),
    {
        self.chan.queue.len()
    }

    /// The number of values that the channel takes without a receiver.
    pub fn cap(&self) -> (n: usize)
        ensures
            n == self.chan.cap,
    {
        self.chan.cap
    }

    /// Closes the channel; the values that wait stay.
    pub fn close(&mut self)
        ensures
            final(self).chan.closed,
            final(self).chan.cap == old(self).chan.cap,
            final(self).chan.queue == old(self).chan.queue,
            final(self).meta == old(self).meta,
    {
        self.chan.closed = true;
    }

    /// One step of a send: a closed channel takes nothing, a full one makes
    /// the sender wait, another one takes the value at the end of its queue.
    pub fn send(&mut self, v: &GosValue) -> (r: ChanStep)
        ensures
            final(self).meta == old(self).meta,
            final(self).chan.cap == old(self).chan.cap,
            final(self).chan.closed == old(self).chan.closed,
            if old(self).chan.closed {
                r is Closed && final(self).chan.queue == old(self).chan.queue
            } else if old(self).chan.queue@.len() >= old(self).chan.cap {
                r is Suspend && final(self).chan.queue == old(self).chan.queue
            } else {
                r == ChanStep::Done(None) && final(self).chan.queue@ == old(self).chan.queue@.push(
                    *v,
                )
            },
    {
        if self.chan.closed {
            ChanStep::Closed
        } else if self.chan.queue.len() >= self.chan.cap {
            ChanStep::Suspend
        } else {
            self.chan.queue.push(v.clone());
            ChanStep::Done(None)
        }
    }

    /// One step of a receive: the value at the front of the queue; from an
    /// empty channel nothing where it is closed, and a wait where it is not.
    pub fn recv(&mut self) -> (r: ChanStep)
        ensures
            final(self).meta == old(self).meta,
            final(self).chan.cap == old(self).chan.cap,
            final(self).chan.closed == old(self).chan.closed,
            if old(self).chan.queue@.len() > 0 {
                r == ChanStep::Done(Some(old(self).chan.queue@[0])) && final(self).chan.queue@
                    == old(self).chan.queue@.subrange(1, old(self).chan.queue@.len() as int)
            } else if old(self).chan.closed {
                r is Closed && final(self).chan.queue == old(self).chan.queue
            } else {
                r is Suspend && final(self).chan.queue == old(self).chan.queue
            },
    {
        if self.chan.queue.len() > 0 {
            let v = self.chan.queue.remove(0);
            ChanStep::Done(Some(v))
        } else if self.chan.closed {
            ChanStep::Closed
        } else {
            ChanStep::Suspend
        }
    }
}

/// Data of the embedding program behind a pointer.
pub trait UserData {
    /// Whether the data can be part of a reference cycle. Data that does
    /// not say otherwise cannot.
    fn can_make_cycle(&self) -> (b: bool)
        default_ensures
            !b,
    {
        false
    }

    /// One reference to the data went away.
    fn ref_sub_one(&self) {
    }

    /// The data was reached by a mark pass; it may queue what it refers to.
    fn mark_dirty(&self, queue: &mut RCQueue) {
    }

    /// Breaks the cycles that the data is part of.
    fn break_cycle(&self) {
    }
}

/// A pointer: what it points to.
#[derive(Debug, Clone, Copy, PartialEq, Eq, Structural)]
pub enum PointerObj {
    /// The pointee was released.
    Released,
    UpVal(UpValue),
    Struct(GcKey, GosMetadata),
    Array(GcKey, GosMetadata),
    Slice(GcKey, GosMetadata),
    GosMap(GcKey, GosMetadata),
    SliceMember(GcKey, OpIndex),
    StructField(GcKey, OpIndex),
    UserData(GcKey),
    PkgMember(PackageKey, OpIndex),
}

impl PointerObj {
    /// Whether a value can be pointed to without going through a captured
    /// variable: a struct, an array, a slice or a map, with or without a
    /// name.
    pub open spec fn spec_is_local_ref(val: GosValue) -> bool {
        match val {
            GosValue::Named(inner, _) => *inner is Struct || *inner is Array || *inner is Slice
                || *inner is GosMap,
            _ => val is Struct || val is Array || val is Slice || val is GosMap,
        }
    }

    /// The pointer to a composite value: it holds the handle of the value's
    /// object, and the name's type where the value has a name.
    pub open spec fn spec_new_local(val: GosValue) -> PointerObj {
        match val {
            GosValue::Named(inner, m) => match *inner {
                GosValue::Struct(k) => PointerObj::Struct(k, m),
                GosValue::Array(k) => PointerObj::Array(k, m),
                GosValue::Slice(k) => PointerObj::Slice(k, m),
                GosValue::GosMap(k) => PointerObj::GosMap(k, m),
                _ => PointerObj::Released,
            },
            GosValue::Struct(k) => PointerObj::Struct(k, GosMetadata::Untyped),
            GosValue::Array(k) => PointerObj::Array(k, GosMetadata::Untyped),
            GosValue::Slice(k) => PointerObj::Slice(k, GosMetadata::Untyped),
            GosValue::GosMap(k) => PointerObj::GosMap(k, GosMetadata::Untyped),
            _ => PointerObj::Released,
        }
    }

    /// The pointer to a composite value, which shares the value's object.
    pub fn new_local(val: GosValue) -> (p: PointerObj)
        requires
            Self::spec_is_local_ref(val),
        ensures
            p == Self::spec_new_local(val),
    {
        match val {
            GosValue::Named(s, m) => match *s {
                GosValue::Struct(k) => PointerObj::Struct(k, m),
                GosValue::Array(k) => PointerObj::Array(k, m),
                GosValue::Slice(k) => PointerObj::Slice(k, m),
                GosValue::GosMap(k) => PointerObj::GosMap(k, m),
                _ => vstd::pervasive::unreached(),
            },
            GosValue::Struct(k) => PointerObj::Struct(k, GosMetadata::Untyped),
            GosValue::Array(k) => PointerObj::Array(k, GosMetadata::Untyped),
            GosValue::Slice(k) => PointerObj::Slice(k, GosMetadata::Untyped),
            GosValue::GosMap(k) => PointerObj::GosMap(k, GosMetadata::Untyped),
            _ => vstd::pervasive::unreached(),
        }
    }

    /// Gives the struct that the pointer points to the type and copies of
    /// the fields of another struct.
    pub fn set_local_ref_type(&self, val: GosValue, gcos: &mut GcoVec)
        requires
            *self is Struct,
            old(gcos).spec_is_struct_obj(self->Struct_0),
            val is Struct,
            old(gcos).spec_is_struct_obj(val->Struct_0),
        ensures
            final(gcos).spec_same_but(old(gcos), self->Struct_0),
            final(gcos).spec_is_struct_obj(self->Struct_0),
            final(gcos).spec_struct_obj(self->Struct_0).meta == old(gcos).spec_struct_obj(
                val->Struct_0,
            ).meta,
            final(gcos).spec_struct_obj(self->Struct_0).fields@ == old(gcos).spec_struct_obj(
                val->Struct_0,
            ).fields@,
    {
        match (self, &val) {
            (PointerObj::Struct(k, _), GosValue::Struct(src)) => {
                let copy = match gcos.struct_obj(*src) {
                    Some(s) => s.clone(),
                    None => vstd::pervasive::unreached(),
                };
                let target = gcos.struct_obj_mut(*k);
                *target = copy;
            },
            _ => {},
        }
    }

    /// The handle of the data of the embedding program that the pointer
    /// points to; the store gives the data for it.
    pub fn as_user_data(&self) -> (k: GcKey)
        requires
            *self is UserData,
        ensures
            k == self->UserData_0,
    {
        match self {
            PointerObj::UserData(k) => *k,
            _ => vstd::pervasive::unreached(),
        }
    }

    /// Whether two pointers point to the same place: to the same object, or
    /// to the same element, field or member of the same owner. A pointer
    /// whose pointee was released points nowhere.
    pub open spec fn spec_same_place(&self, other: &PointerObj) -> bool {
        match (*self, *other) {
            (PointerObj::UpVal(x), PointerObj::UpVal(y)) => x == y,
            (PointerObj::Struct(x, _), PointerObj::Struct(y, _)) => x == y,
            (PointerObj::Array(x, _), PointerObj::Array(y, _)) => x == y,
            (PointerObj::Slice(x, _), PointerObj::Slice(y, _)) => x == y,
            (PointerObj::GosMap(x, _), PointerObj::GosMap(y, _)) => x == y,
            (PointerObj::SliceMember(x, ix), PointerObj::SliceMember(y, iy)) => x == y && ix == iy,
            (PointerObj::StructField(x, ix), PointerObj::StructField(y, iy)) => x == y && ix == iy,
            (PointerObj::UserData(x), PointerObj::UserData(y)) => x == y,
            (PointerObj::PkgMember(ka, ix), PointerObj::PkgMember(kb, iy)) => ka == kb && ix == iy,
            _ => false,
        }
    }

    /// What stands for the place of a pointer in a hash: the kind of the
    /// pointer, the handle of the pointee or owner, and the number of the
    /// element, field or member.
    pub open spec fn spec_hash_parts(&self) -> (u8, u64, OpIndex) {
        match *self {
            PointerObj::Released => (0u8, 0u64, 0i32),
            PointerObj::UpVal(x) => (1u8, x.inner as u64, 0i32),
            PointerObj::Struct(x, _) => (2u8, x as u64, 0i32),
            PointerObj::Array(x, _) => (3u8, x as u64, 0i32),
            PointerObj::Slice(x, _) => (4u8, x as u64, 0i32),
            PointerObj::GosMap(x, _) => (5u8, x as u64, 0i32),
            PointerObj::SliceMember(x, i) => (6u8, x as u64, i),
            PointerObj::StructField(x, i) => (7u8, x as u64, i),
            PointerObj::UserData(x) => (8u8, x as u64, 0i32),
            PointerObj::PkgMember(p, i) => (9u8, p@, i),
        }
    }

    /// What stands for the place of a pointer in a hash. A pointer whose
    /// pointee was released has no place.
    #[verifier::when_used_as_spec(spec_hash_parts)]
    pub fn hash_parts(&self) -> (r: (u8, u64, OpIndex))
        requires
            !(*self is Released),
        ensures
            r == self.spec_hash_parts(),
    {
        match self {
            PointerObj::Released => vstd::pervasive::unreached(),
            PointerObj::UpVal(x) => (1u8, x.inner as u64, 0i32),
            PointerObj::Struct(x, _) => (2u8, *x as u64, 0i32),
            PointerObj::Array(x, _) => (3u8, *x as u64, 0i32),
            PointerObj::Slice(x, _) => (4u8, *x as u64, 0i32),
            PointerObj::GosMap(x, _) => (5u8, *x as u64, 0i32),
            PointerObj::SliceMember(x, i) => (6u8, *x as u64, *i),
            PointerObj::StructField(x, i) => (7u8, *x as u64, *i),
            PointerObj::UserData(x) => (8u8, *x as u64, 0i32),
            PointerObj::PkgMember(p, i) => (9u8, crate::arena::key_to_u64(*p), *i),
        }
    }

    /// Two pointers to the same place have the same parts for a hash.
    pub proof fn lemma_same_place_same_hash(&self, other: &PointerObj)
        requires
            self.spec_same_place(other),
        ensures
            self.spec_hash_parts() == other.spec_hash_parts(),
    {
    }

    #[verifier::when_used_as_spec(spec_same_place)]
    pub fn same_place(&self, other: &PointerObj) -> (r: bool)
        ensures
            r == self.spec_same_place(other),
    {
        match (self, other) {
            (PointerObj::UpVal(x), PointerObj::UpVal(y)) => x.inner == y.inner,
            (PointerObj::Struct(x, _), PointerObj::Struct(y, _)) => *x == *y,
            (PointerObj::Array(x, _), PointerObj::Array(y, _)) => *x == *y,
            (PointerObj::Slice(x, _), PointerObj::Slice(y, _)) => *x == *y,
            (PointerObj::GosMap(x, _), PointerObj::GosMap(y, _)) => *x == *y,
            (PointerObj::SliceMember(x, ix), PointerObj::SliceMember(y, iy)) => *x == *y && *ix
                == *iy,
            (PointerObj::StructField(x, ix), PointerObj::StructField(y, iy)) => *x == *y && *ix
                == *iy,
            (PointerObj::UserData(x), PointerObj::UserData(y)) => *x == *y,
            (PointerObj::PkgMember(ka, ix), PointerObj::PkgMember(kb, iy)) => *ka == *kb && *ix
                == *iy,
            _ => false,
        }
    }
}

/// Handle of a call frame's stack.
#[derive(Clone, Copy, Debug, PartialEq, Eq, Structural)]
pub struct StackKey {
    pub id: usize,
}

/// Where a captured variable lives while its frame is alive.
#[derive(Clone, Copy, Debug)]
pub struct ValueDesc {
    pub func: FunctionKey,
    pub index: OpIndex,
    pub typ: ValueType,
    pub is_up_value: bool,
    pub stack: Option<StackKey>,
    pub stack_base: OpIndex,
}

impl ValueDesc {
    /// The place of a variable whose frame is not known yet.
    pub fn new(func: FunctionKey, index: OpIndex, typ: ValueType, is_up_value: bool) -> (r:
        ValueDesc)
        ensures
            r == (ValueDesc { func, index, typ, is_up_value, stack: None, stack_base: 0 }),
    {
        ValueDesc { func, index, typ, is_up_value, stack: None, stack_base: 0 }
    }

    /// The same place in a frame that is known now.
    pub fn clone_with_stack(&self, stack: Option<StackKey>, stack_base: OpIndex) -> (r: ValueDesc)
        ensures
            r == (ValueDesc { stack, stack_base, ..*self }),
    {
        ValueDesc {
            func: self.func,
            index: self.index,
            typ: self.typ,
            is_up_value: self.is_up_value,
            stack,
            stack_base,
        }
    }

    /// Whether two places are the same slot.
    pub fn eq(&self, other: &ValueDesc) -> (r: bool)
        ensures
            r == (self.index == other.index),
    {
        self.index == other.index
    }
}

/// A captured variable: open while the frame that defines it is alive,
/// closed over a copy of the value afterwards.
#[derive(Debug)]
pub enum UpValueState {
    Open(ValueDesc),
    Closed(GosValue),
}

/// A shared captured variable.
#[derive(Clone, Copy, Debug, PartialEq, Eq, Structural)]
pub struct UpValue {
    pub inner: GcKey,
}

impl UpValue {
    /// The state of the captured variable.
    pub open spec fn spec_state(&self, gcos: &GcoVec) -> UpValueState
        recommends
            gcos.spec_is_upvalue(self.inner),
    {
        gcos.spec_upvalue(self.inner)
    }

    /// Whether the captured variable is open.
    pub open spec fn spec_is_open(&self, gcos: &GcoVec) -> bool {
        gcos.spec_is_upvalue(self.inner) && self.spec_state(gcos) is Open
    }

    /// Whether the captured variable is closed.
    pub open spec fn spec_is_closed(&self, gcos: &GcoVec) -> bool {
        gcos.spec_is_upvalue(self.inner) && self.spec_state(gcos) is Closed
    }

    /// An open captured variable, in a new cell of the store.
    pub fn new(d: ValueDesc, gcos: &mut GcoVec) -> (r: UpValue)
        ensures
            r.inner == old(gcos)@.len(),
            r.spec_is_open(final(gcos)),
            r.spec_state(final(gcos)) == UpValueState::Open(d),
            final(gcos).spec_extends(old(gcos)),
            final(gcos)@.len() == old(gcos)@.len() + 1,
    {
        let k = gcos.add(GcObj::UpValue(UpValueState::Open(d)));
        UpValue { inner: k }
    }

    /// A captured variable that is closed from the start, in a new cell of
    /// the store.
    pub fn new_closed(v: GosValue, gcos: &mut GcoVec) -> (r: UpValue)
        ensures
            r.inner == old(gcos)@.len(),
            r.spec_is_closed(final(gcos)),
            r.spec_state(final(gcos)) == UpValueState::Closed(v),
            final(gcos).spec_extends(old(gcos)),
            final(gcos)@.len() == old(gcos)@.len() + 1,
    {
        let k = gcos.add(GcObj::UpValue(UpValueState::Closed(v)));
        UpValue { inner: k }
    }

    /// A reference that does not keep the captured variable alive.
    pub fn downgrade(&self) -> (w: WeakUpValue)
        ensures
            w.inner == self.inner,
    {
        WeakUpValue { inner: self.inner }
    }

    /// Whether the captured variable is open.
    pub fn is_open(&self, gcos: &GcoVec) -> (b: bool)
        ensures
            b == self.spec_is_open(gcos),
    {
        match gcos.upvalue(self.inner) {
            Some(UpValueState::Open(_)) => true,
            _ => false,
        }
    }

    /// Where the variable lives; only an open captured variable has a
    /// place.
    pub fn desc(&self, gcos: &GcoVec) -> (d: ValueDesc)
        requires
            self.spec_is_open(gcos),
        ensures
            d == self.spec_state(gcos)->Open_0,
    {
        match gcos.upvalue(self.inner) {
            Some(UpValueState::Open(d)) => *d,
            _ => vstd::pervasive::unreached(),
        }
    }

    /// Closes an open captured variable over a value: its frame ends. No
    /// other cell changes, and nothing opens it again.
    pub fn close(&self, val: GosValue, gcos: &mut GcoVec)
        requires
            self.spec_is_open(old(gcos)),
        ensures
            self.spec_is_closed(final(gcos)),
            self.spec_state(final(gcos)) == UpValueState::Closed(val),
            final(gcos).spec_same_but(old(gcos), self.inner),
    {
        let state = gcos.upvalue_mut(self.inner);
        *state = UpValueState::Closed(val);
    }
}

/// A captured variable that is closed stays closed over the same value,
/// whatever is added to the store, whatever changes in another cell, and
/// whatever happens to the counts.
pub proof fn lemma_closed_stays_closed(uv: UpValue, before: &GcoVec, after: &GcoVec, k: GcKey)
    requires
        uv.spec_is_closed(before),
        after.spec_extends(before) || (after.spec_same_but(before, k) && k != uv.inner)
            || after@ == crate::gc::spec_cells_sub_one(before@, k) || after@
            == crate::gc::spec_cells_mark(before@, k),
    ensures
        uv.spec_is_closed(after),
        uv.spec_state(after) == uv.spec_state(before),
{
    assert(after@[uv.inner as int].obj == before@[uv.inner as int].obj);
}

/// A reference to a captured variable that does not keep it alive.
#[derive(Clone, Copy, Debug)]
pub struct WeakUpValue {
    pub inner: GcKey,
}

impl WeakUpValue {
    /// The captured variable, unless it was reclaimed.
    pub fn upgrade(&self, gcos: &GcoVec) -> (r: Option<UpValue>)
        ensures
            r == if gcos.spec_is_upvalue(self.inner) {
                Some(UpValue { inner: self.inner })
            } else {
                None
            },
    {
        match gcos.upvalue(self.inner) {
            Some(_) => Some(UpValue { inner: self.inner }),
            None => None,
        }
    }
}

/// A closure over a function of foreign code.
#[derive(Debug)]
pub struct FfiClosureObj {
    pub ffi: FfiKey,
    pub func_name: String,
    pub meta: GosMetadata,
}

/// A closure: a compiled function with its captured variables and its bound
/// receiver, or a function of foreign code.
#[derive(Debug)]
pub struct ClosureObj {
    pub func: Option<FunctionKey>,
    pub uvs: Option<Vec<(usize, UpValue)>>,
    pub recv: Option<GosValue>,
    pub ffi: Option<Box<FfiClosureObj>>,
    pub meta: GosMetadata,
}

/// The positions below `n` at which a function's list of captured variables
/// holds one that is captured from an enclosing function, in order.
pub open spec fn spec_captured(up_ptrs: Seq<ValueDesc>, n: int) -> Seq<int>
    decreases n,
{
    if n <= 0 {
        Seq::empty()
    } else if n <= up_ptrs.len() && up_ptrs[n - 1].is_up_value {
        spec_captured(up_ptrs, n - 1).push(n - 1)
    } else {
        spec_captured(up_ptrs, n - 1)
    }
}

impl ClosureObj {
    /// The closure over a compiled function. Each variable that the
    /// function captures from an enclosing function gets an open captured
    /// variable in a new cell of the store, under its position in the
    /// function's list.
    pub fn new_gos(
        key: FunctionKey,
        fobjs: &FunctionObjs,
        recv: Option<GosValue>,
        gcos: &mut GcoVec,
    ) -> (r: ClosureObj)
        requires
            fobjs.spec_contains(key),
        ensures
            r.func == Some(key),
            r.recv == recv,
            r.ffi is None,
            r.meta == fobjs.spec_index(key)@.meta,
            final(gcos).spec_extends(old(gcos)),
            ({
                let up_ptrs = fobjs.spec_index(key)@.up_ptrs;
                let captured = spec_captured(up_ptrs, up_ptrs.len() as int);
                &&& final(gcos)@.len() == old(gcos)@.len() + if up_ptrs.len() > 0 {
                    captured.len()
                } else {
                    0
                }
                &&& r.uvs is Some <==> up_ptrs.len() > 0
                &&& r.uvs matches Some(uvs) ==> {
                    &&& uvs@.len() == captured.len()
                    &&& forall|j: int|
                        0 <= j < captured.len() ==> {
                            &&& (#[trigger] uvs@[j]).0 == captured[j]
                            &&& uvs@[j].1.inner == old(gcos)@.len() + j
                            &&& uvs@[j].1.spec_state(final(gcos)) == UpValueState::Open(
                                up_ptrs[captured[j]],
                            )
                            &&& uvs@[j].1.spec_is_open(final(gcos))
                        }
                }
            }),
    {
        let func = match fobjs.get(key) {
            Some(f) => f,
            None => vstd::pervasive::unreached(),
        };
        let up_ptrs = func.up_ptrs();
        let meta = func.meta();
        let uvs: Option<Vec<(usize, UpValue)>> = if up_ptrs.len() > 0 {
            let mut list: Vec<(usize, UpValue)> = Vec::new();
            let mut i: usize = 0;
            let ghost base = *gcos;
            while i < up_ptrs.len()
                invariant
                    i <= up_ptrs@.len(),
                    gcos.spec_extends(&base),
                    list@.len() == spec_captured(up_ptrs@, i as int).len(),
                    gcos@.len() == base@.len() + list@.len(),
                    forall|j: int|
                        0 <= j < list@.len() ==> {
                            &&& (#[trigger] list@[j]).0 == spec_captured(up_ptrs@, i as int)[j]
                            &&& list@[j].1.inner == base@.len() + j
                            &&& list@[j].1.spec_state(gcos) == UpValueState::Open(
                                up_ptrs@[spec_captured(up_ptrs@, i as int)[j]],
                            )
                            &&& list@[j].1.spec_is_open(gcos)
                        },
                decreases up_ptrs@.len() - i,
            {
                let ghost mid = *gcos;
                if up_ptrs[i].is_up_value {
                    let uv = UpValue::new(up_ptrs[i], gcos);
                    list.push((i, uv));
                    proof {
                        gcos.lemma_extends_transitive(&mid, &base);
                    }
                }
                i += 1;
            }
            Some(list)
        } else {
            None
        };
        ClosureObj { func: Some(key), uvs, recv, ffi: None, meta }
    }

    /// The closure over a function of foreign code.
    pub fn new_ffi(ffi: FfiClosureObj) -> (r: ClosureObj)
        ensures
            r.func is None,
            r.uvs is None,
            r.recv is None,
            r.ffi == Some(Box::new(ffi)),
            r.meta == ffi.meta,
    {
        let m = ffi.meta;
        ClosureObj { func: None, uvs: None, recv: None, ffi: Some(Box::new(ffi)), meta: m }
    }
}

/// What a compiled package holds.
pub struct PackageView {
    pub name: Seq<char>,
    /// Imports, constants, variables and functions, by slot.
    pub members: Seq<GosValue>,
    /// The slot of each member's name.
    pub member_indices: Map<Seq<char>, OpIndex>,
    /// Until the package is initialised: the variable's slot for each
    /// constructor function's slot.
    pub var_mapping: Option<Map<OpIndex, OpIndex>>,
}

/// A compiled package: its members and, until it is initialised, which
/// variable each constructor function initialises.
#[derive(Debug)]
pub struct PackageVal {
    name: String,
    members: Vec<GosValue>,
    member_indices: NameTable,
    var_mapping: Option<HashMap<OpIndex, OpIndex>>,
}

impl View for PackageVal {
    type V = PackageView;

    closed spec fn view(&self) -> PackageView {
        PackageView {
            name: self.name@,
            members: self.members@,
            member_indices: self.member_indices@,
            var_mapping: match self.var_mapping {
                Some(m) => Some(m@),
                None => None,
            },
        }
    }
}

impl PackageVal {
    /// Whether the package is initialised.
    pub open spec fn spec_inited(&self) -> bool {
        self@.var_mapping is None
    }

    /// Until the package is initialised, finitely many constructor slots
    /// are recorded.
    pub proof fn lemma_var_mapping_finite(&self)
        ensures
            self@.var_mapping matches Some(m) ==> m.dom().finite(),
    {
        broadcast use vstd::std_specs::hash::axiom_hashmap_view_finite_dom;

    }

    /// A package without members that is not initialised yet.
    pub fn new(name: String) -> (p: PackageVal)
        ensures
            p@ == (PackageView {
                name: name@,
                members: Seq::empty(),
                member_indices: Map::empty(),
                var_mapping: Some(Map::empty()),
            }),
            !p.spec_inited(),
    {
        PackageVal {
            name,
            members: Vec::new(),
            member_indices: NameTable::new(),
            var_mapping: Some(HashMap::new()),
        }
    }

    /// Adds a member under a name and zeros its slot.
    pub fn add_member(&mut self, name: String, val: GosValue) -> (index: OpIndex)
        requires
            old(self)@.members.len() < i32::MAX,
        ensures
            index == old(self)@.members.len(),
            final(self)@ == (PackageView {
                members: old(self)@.members.push(val),
                member_indices: old(self)@.member_indices.insert(name@, index),
                ..old(self)@
            }),
            final(self).spec_inited() == old(self).spec_inited(),
    {
        self.members.push(val);
        let index = (self.members.len() - 1) as OpIndex;
        self.member_indices.insert(name, index);
        index
    }

    /// Records that the constructor function in slot `fn_index` initialises
    /// the variable with the given name, and zeros the variable's slot.
    pub fn add_var_mapping(&mut self, name: String, fn_index: OpIndex) -> (index: OpIndex)
        requires
            old(self)@.member_indices.contains_key(name@),
            !old(self).spec_inited(),
        ensures
            index == old(self)@.member_indices[name@],
            final(self)@ == (PackageView {
                var_mapping: Some(old(self)@.var_mapping.unwrap().insert(fn_index, index)),
                ..old(self)@
            }),
            !final(self).spec_inited(),
            final(self)@.var_mapping.unwrap().dom().finite(),
            final(self)@.var_mapping.unwrap().len() == old(self)@.var_mapping.unwrap().len() + if old(self)@.var_mapping.unwrap().contains_key(fn_index) {
                0int
            } else {
                1int
            },
    {
        let index = match self.get_member_index(name.as_str()) {
            Some(i) => i,
            None => vstd::pervasive::unreached(),
        };
        proof {
            self.lemma_var_mapping_finite();
        }
        match &mut self.var_mapping {
            Some(m) => {
                m.insert(fn_index, index);
            },
            None => {},
        }
        proof {
            self.lemma_var_mapping_finite();
            let before = old(self)@.var_mapping.unwrap();
            if before.contains_key(fn_index) {
                assert(before.dom().insert(fn_index) =~= before.dom());
            }
        }
        index
    }

    /// The variable that the constructor function in a slot initialises, to
    /// be changed in place.
    pub fn var_mut(&mut self, fn_member_index: OpIndex) -> (v: &mut GosValue)
        requires
            old(self)@.var_mapping matches Some(m) && m.contains_key(fn_member_index) && 0
                <= m[fn_member_index] < old(self)@.members.len(),
        ensures
            *v == old(self)@.members[old(self)@.var_mapping.unwrap()[fn_member_index] as int],
            final(self)@ == (PackageView {
                members: old(self)@.members.update(
                    old(self)@.var_mapping.unwrap()[fn_member_index] as int,
                    *final(v),
                ),
                ..old(self)@
            }),
    {
        let index: OpIndex = match &self.var_mapping {
            Some(m) => match m.get(&fn_member_index) {
                Some(i) => *i,
                None => vstd::pervasive::unreached(),
            },
            None => vstd::pervasive::unreached(),
        };
        &mut self.members[index as usize]
    }

    /// The number of variables with a constructor, as long as the package
    /// is not initialised.
    pub fn var_count(&self) -> (n: usize)
        requires
            !self.spec_inited(),
        ensures
            n == self@.var_mapping.unwrap().len(),
            self@.var_mapping.unwrap().dom().finite(),
    {
        proof {
            self.lemma_var_mapping_finite();
        }
        match &self.var_mapping {
            Some(m) => m.len(),
            None => vstd::pervasive::unreached(),
        }
    }

    /// The slot of the member with a name.
    pub fn get_member_index(&self, name: &str) -> (r: Option<OpIndex>)
        ensures
            r == if self@.member_indices.contains_key(name@) {
                Some(self@.member_indices[name@])
            } else {
                None
            },
    {
        self.member_indices.get(name)
    }

    /// Whether the package is initialised.
    #[verifier::when_used_as_spec(spec_inited)]
    pub fn inited(&self) -> (b: bool)
        ensures
            b == self.spec_inited(),
    {
        self.var_mapping.is_none()
    }

    /// The package is initialised from now on: what was recorded about the
    /// constructors is dropped.
    pub fn set_inited(&mut self)
        ensures
            final(self)@ == (PackageView { var_mapping: None, ..old(self)@ }),
            final(self).spec_inited(),
    {
        self.var_mapping = None
    }

    /// The member in a slot.
    pub fn member(&self, i: OpIndex) -> (v: &GosValue)
        requires
            0 <= i < self@.members.len(),
        ensures
            *v == self@.members[i as int],
    {
        &self.members[i as usize]
    }

    /// The member in a slot, to be changed in place.
    pub fn member_mut(&mut self, i: OpIndex) -> (v: &mut GosValue)
        requires
            0 <= i < old(self)@.members.len(),
        ensures
            *v == old(self)@.members[i as int],
            final(self)@ == (PackageView {
                members: old(self)@.members.update(i as int, *final(v)),
                ..old(self)@
            }),
            final(self).spec_inited() == old(self).spec_inited(),
    {
        &mut self.members[i as usize]
    }
}

/// How a function addresses a variable.
#[derive(Clone, Copy, Debug, PartialEq, Eq, Structural)]
pub enum EntIndex {
    Const(OpIndex),
    LocalVar(OpIndex),
    UpValue(OpIndex),
    PackageMember(PackageKey, IdentKey),
    BuiltInVal(Opcode),
    BuiltInType(GosMetadata),
    Blank,
}

impl EntIndex {
    /// The slot of a constant, a local or a captured variable.
    pub fn into_index(self) -> (i: OpIndex)
        requires
            self is Const || self is LocalVar || self is UpValue,
        ensures
            self matches EntIndex::Const(x) ==> i == x,
            self matches EntIndex::LocalVar(x) ==> i == x,
            self matches EntIndex::UpValue(x) ==> i == x,
    {
        match self {
            EntIndex::Const(i) => i,
            EntIndex::LocalVar(i) => i,
            EntIndex::UpValue(i) => i,
            _ => vstd::pervasive::unreached(),
        }
    }
}

/// The kind of a function.
#[derive(Eq, PartialEq, Copy, Clone, Debug, Structural)]
pub enum FuncFlag {
    Default,
    PkgCtor,
    HasDefer,
}

/// A compiled function.
#[derive(Debug)]
pub struct FunctionVal {
    pub package: PackageKey,
    pub meta: GosMetadata,
    code: Vec<Instruction>,
    pos: Vec<Option<usize>>,
    pub consts: Vec<GosValue>,
    pub up_ptrs: Vec<ValueDesc>,
    pub ret_zeros: Vec<GosValue>,
    pub local_zeros: Vec<GosValue>,
    pub flag: FuncFlag,
    param_count: usize,
    entities: HashMap<u64, EntIndex>,
    uv_entities: HashMap<u64, EntIndex>,
    local_alloc: u16,
}

/// The arenas of a program and the descriptors of the predeclared types.
pub struct VMObjects {
    pub metas: MetadataObjs,
    pub functions: FunctionObjs,
    pub packages: PackageObjs,
    pub metadata: Metadata,
}

impl VMObjects {
    /// The arenas of a new program: no functions, no packages, and the
    /// definitions of the predeclared types.
    pub fn new() -> (r: VMObjects)
        ensures
            r.metas.spec_len() == 19,
            r.metas@.dom().finite(),
            r.metadata.spec_predeclared(r.metas@),
            r.metadata.spec_keys().no_duplicates(),
            r.functions.spec_len() == 0,
            r.packages.spec_len() == 0,
            forall|k: u64| !r.functions@.contains_key(k),
            forall|k: u64| !r.packages@.contains_key(k),
    {
        let mut metas = MetadataObjs::with_capacity(DEFAULT_CAPACITY);
        let md = Metadata::new(&mut metas);
        VMObjects {
            metas,
            functions: FunctionObjs::with_capacity(DEFAULT_CAPACITY),
            packages: PackageObjs::with_capacity(DEFAULT_CAPACITY),
            metadata: md,
        }
    }
}

/// Whether `val` stands at position `i` of the pool and nowhere before it.
pub open spec fn spec_const_first_at(consts: Seq<GosValue>, val: GosValue, i: int) -> bool {
    &&& 0 <= i < consts.len()
    &&& val.spec_identical(&consts[i])
    &&& forall|j: int| 0 <= j < i ==> !val.spec_identical(&#[trigger] consts[j])
}

/// The first position of the pool at which `val` stands.
pub open spec fn spec_const_index(consts: Seq<GosValue>, val: GosValue) -> Option<int> {
    if exists|i: int| spec_const_first_at(consts, val, i) {
        Some(choose|i: int| spec_const_first_at(consts, val, i))
    } else {
        None
    }
}

/// The position at which a value first stands is the only one that
/// `spec_const_index` can give.
pub proof fn lemma_const_index_is(consts: Seq<GosValue>, val: GosValue, i: int)
    requires
        spec_const_first_at(consts, val, i),
    ensures
        spec_const_index(consts, val) == Some(i),
{
    let k = choose|k: int| spec_const_first_at(consts, val, k);
    if k < i {
        assert(!val.spec_identical(&consts[k]));
    }
    if i < k {
        assert(!val.spec_identical(&consts[i]));
    }
}

/// A value that stands nowhere in the pool has no position.
pub proof fn lemma_const_index_none(consts: Seq<GosValue>, val: GosValue)
    requires
        forall|j: int| 0 <= j < consts.len() ==> !val.spec_identical(&#[trigger] consts[j]),
    ensures
        spec_const_index(consts, val) is None,
{
    if exists|i: int| spec_const_first_at(consts, val, i) {
        let k = choose|k: int| spec_const_first_at(consts, val, k);
        assert(!val.spec_identical(&consts[k]));
    }
}

/// What a compiled function holds.
pub struct FunctionView {
    pub package: PackageKey,
    pub meta: GosMetadata,
    pub code: Seq<Instruction>,
    pub pos: Seq<Option<usize>>,
    pub consts: Seq<GosValue>,
    pub up_ptrs: Seq<ValueDesc>,
    pub ret_zeros: Seq<GosValue>,
    pub local_zeros: Seq<GosValue>,
    pub flag: FuncFlag,
    pub param_count: usize,
    /// The slot of each entity that was bound to a local or a constant.
    pub entities: Map<u64, EntIndex>,
    /// The slot of each captured entity.
    pub uv_entities: Map<u64, EntIndex>,
    /// The number of local slots given out.
    pub local_alloc: u16,
}

impl View for FunctionVal {
    type V = FunctionView;

    closed spec fn view(&self) -> FunctionView {
        FunctionView {
            package: self.package,
            meta: self.meta,
            code: self.code@,
            pos: self.pos@,
            consts: self.consts@,
            up_ptrs: self.up_ptrs@,
            ret_zeros: self.ret_zeros@,
            local_zeros: self.local_zeros@,
            flag: self.flag,
            param_count: self.param_count,
            entities: self.entities@,
            uv_entities: self.uv_entities@,
            local_alloc: self.local_alloc,
        }
    }
}

impl FunctionVal {
    /// A function of the given kind and signature without code, constants
    /// and locals. The zero value of each result is made and kept; the
    /// parameters are those of the signature and its receiver.
    pub fn new(
        package: PackageKey,
        meta: GosMetadata,
        objs: &VMObjects,
        gcv: &mut GcoVec,
        flag: FuncFlag,
    ) -> (f: FunctionVal)
        requires
            meta is NonPtr,
            objs.metas.spec_contains(meta.spec_key()),
            objs.metas.spec_index(meta.spec_key()) is Signature,
            objs.metas.spec_index(meta.spec_key())->Signature_0.params@.len() < usize::MAX,
        ensures
            final(gcv).spec_extends(old(gcv)),
            ({
                let sig = objs.metas.spec_index(meta.spec_key())->Signature_0;
                &&& f@ == (FunctionView {
                    package,
                    meta,
                    code: Seq::empty(),
                    pos: Seq::empty(),
                    consts: Seq::empty(),
                    up_ptrs: Seq::empty(),
                    ret_zeros: f@.ret_zeros,
                    local_zeros: Seq::empty(),
                    flag,
                    param_count: (sig.params@.len() + if sig.recv is Some {
                        1int
                    } else {
                        0int
                    }) as usize,
                    entities: Map::empty(),
                    uv_entities: Map::empty(),
                    local_alloc: 0,
                })
                &&& f@.ret_zeros.len() == sig.results@.len()
                &&& forall|i: int|
                    0 <= i < sig.results@.len() ==> (#[trigger] sig.results@[i]).spec_default_shape(
                        f@.ret_zeros[i],
                        objs.metas@,
                        old(gcv)@,
                        final(gcv)@,
                        objs.metas.spec_len() + 1,
                        true,
                    )
            }),
    {
        let ghost start = *gcv;
        let s = match objs.metas.get(meta.as_non_ptr()) {
            Some(def) => def.as_signature(),
            None => vstd::pervasive::unreached(),
        };
        let fuel = objs.metas.len() + 1;
        let base = gcv.len();
        let mut zeros: Vec<GosValue> = Vec::new();
        let mut i: usize = 0;
        proof {
            assert(start@.take(base as int) =~= start@);
        }
        while i < s.results.len()
            invariant
                i <= s.results@.len(),
                fuel == objs.metas.spec_len() + 1,
                base == start@.len(),
                gcv.spec_extends(&start),
                zeros@.len() == i,
                forall|j: int|
                    0 <= j < i ==> (#[trigger] s.results@[j]).spec_default_shape(
                        zeros@[j],
                        objs.metas@,
                        start@,
                        gcv@,
                        fuel as nat,
                        true,
                    ),
            decreases s.results@.len() - i,
        {
            let ghost mid = *gcv;
            let ghost done = zeros@;
            proof {
                assert(mid@.take(base as int) =~= start@);
            }
            let z = s.results[i].zero_val_impl(&objs.metas, gcv, fuel, base, true);
            zeros.push(z);
            proof {
                gcv.lemma_extends_transitive(&mid, &start);
                assert forall|j: int| 0 <= j < i + 1 implies (
                #[trigger] s.results@[j]).spec_default_shape(
                    zeros@[j],
                    objs.metas@,
                    start@,
                    gcv@,
                    fuel as nat,
                    true,
                ) by {
                    if j < i {
                        assert(zeros@[j] == done[j]);
                        lemma_default_shape_extends(
                            s.results@[j],
                            done[j],
                            objs.metas@,
                            start@,
                            mid@,
                            gcv@,
                            fuel as nat,
                            true,
                        );
                    }
                }
            }
            i += 1;
        }
        let params = s.params.len() + if s.recv.is_some() {
            1
        } else {
            0
        };
        Self::with_signature(package, meta, zeros, params, flag)
    }

    /// A function of the given kind without code, constants and locals.
    pub fn with_signature(
        package: PackageKey,
        meta: GosMetadata,
        ret_zeros: Vec<GosValue>,
        param_count: usize,
        flag: FuncFlag,
    ) -> (f: FunctionVal)
        ensures
            f@ == (FunctionView {
                package,
                meta,
                code: Seq::empty(),
                pos: Seq::empty(),
                consts: Seq::empty(),
                up_ptrs: Seq::empty(),
                ret_zeros: ret_zeros@,
                local_zeros: Seq::empty(),
                flag,
                param_count,
                entities: Map::empty(),
                uv_entities: Map::empty(),
                local_alloc: 0,
            }),
    {
        FunctionVal {
            package,
            meta,
            code: Vec::new(),
            pos: Vec::new(),
            consts: Vec::new(),
            up_ptrs: Vec::new(),
            ret_zeros,
            local_zeros: Vec::new(),
            flag,
            param_count,
            entities: HashMap::new(),
            uv_entities: HashMap::new(),
            local_alloc: 0,
        }
    }

    /// The kind of the function.
    pub fn flag(&self) -> (f: FuncFlag)
        ensures
            f == self@.flag,
    {
        self.flag
    }

    /// The descriptor of the function's signature.
    pub fn meta(&self) -> (m: GosMetadata)
        ensures
            m == self@.meta,
    {
        self.meta
    }

    /// The constants.
    pub fn consts(&self) -> (c: &Vec<GosValue>)
        ensures
            c@ == self@.consts,
    {
        &self.consts
    }

    /// Where each captured variable lives.
    pub fn up_ptrs(&self) -> (u: &Vec<ValueDesc>)
        ensures
            u@ == self@.up_ptrs,
    {
        &self.up_ptrs
    }

    /// The instructions.
    pub fn code(&self) -> (c: &Vec<Instruction>)
        ensures
            c@ == self@.code,
    {
        &self.code
    }

    /// The instruction at a position, to be changed in place.
    pub fn instruction_mut(&mut self, i: usize) -> (inst: &mut Instruction)
        requires
            i < old(self)@.code.len(),
        ensures
            *inst == old(self)@.code[i as int],
            final(self)@ == (FunctionView {
                code: old(self)@.code.update(i as int, *final(inst)),
                ..old(self)@
            }),
    {
        &mut self.code[i]
    }

    /// The source position of each instruction.
    pub fn pos(&self) -> (p: &Vec<Option<usize>>)
        ensures
            p@ == self@.pos,
    {
        &self.pos
    }

    /// The number of parameters, the receiver included.
    pub fn param_count(&self) -> (n: usize)
        ensures
            n == self@.param_count,
    {
        self.param_count
    }

    /// The number of results.
    pub fn ret_count(&self) -> (n: usize)
        ensures
            n == self@.ret_zeros.len(),
    {
        self.ret_zeros.len()
    }

    /// Whether the function is a package constructor.
    pub fn is_ctor(&self) -> (b: bool)
        ensures
            b == (self@.flag == FuncFlag::PkgCtor),
    {
        self.flag == FuncFlag::PkgCtor
    }

    /// The number of local slots that are neither parameters nor results.
    pub fn local_count(&self) -> (n: usize)
        requires
            self@.param_count + self@.ret_zeros.len() <= self@.local_alloc,
        ensures
            n == self@.local_alloc - self@.param_count - self@.ret_zeros.len(),
    {
        self.local_alloc as usize - self.param_count() - self.ret_count()
    }

    /// The slot that an entity was bound to.
    pub fn entity_index(&self, entity: &EntityKey) -> (r: Option<&EntIndex>)
        ensures
            match r {
                Some(i) => self@.entities.contains_key(entity@) && *i == self@.entities[entity@],
                None => !self@.entities.contains_key(entity@),
            },
    {
        let bits = entity.bits();
        self.entities.get(&bits)
    }

    /// The constant in a slot of the pool.
    pub fn const_val(&self, index: OpIndex) -> (v: &GosValue)
        requires
            0 <= index < self@.consts.len(),
        ensures
            *v == self@.consts[index as int],
    {
        &self.consts[index as usize]
    }

    /// The distance from a position to the end of the code.
    pub fn offset(&self, loc: usize) -> (d: OpIndex)
        requires
            loc <= self@.code.len(),
            self@.code.len() - loc <= i32::MAX,
        ensures
            d == self@.code.len() - loc,
    {
        (self.code.len() - loc) as OpIndex
    }

    /// The position of the next instruction.
    pub fn next_code_index(&self) -> (n: usize)
        ensures
            n == self@.code.len(),
    {
        self.code.len()
    }

    /// Appends an instruction with its source position.
    pub fn push_inst_pos(&mut self, i: Instruction, pos: Option<usize>)
        ensures
            final(self)@ == (FunctionView {
                code: old(self)@.code.push(i),
                pos: old(self)@.pos.push(pos),
                ..old(self)@
            }),
    {
        self.code.push(i);
        self.pos.push(pos);
    }

    /// Appends the instruction made of an opcode, three optional type tags
    /// and an optional immediate.
    pub fn emit_inst(
        &mut self,
        op: Opcode,
        types: [Option<ValueType>; 3],
        imm: Option<i32>,
        pos: Option<usize>,
    )
        ensures
            final(self)@ == (FunctionView {
                code: old(self)@.code.push(Instruction::spec_new(op, types[0], types[1], types[2], imm)),
                pos: old(self)@.pos.push(pos),
                ..old(self)@
            }),
    {
        let i = Instruction::new(op, types[0], types[1], types[2], imm);
        self.code.push(i);
        self.pos.push(pos);
    }

    /// Appends a raw 64-bit word.
    pub fn emit_raw_inst(&mut self, u: u64, pos: Option<usize>)
        ensures
            final(self)@ == (FunctionView {
                code: old(self)@.code.push(Instruction::spec_from_u64(u)),
                pos: old(self)@.pos.push(pos),
                ..old(self)@
            }),
    {
        let i = Instruction::from_u64(u);
        self.code.push(i);
        self.pos.push(pos);
    }

    /// Appends an instruction with one type tag.
    pub fn emit_code_with_type(&mut self, code: Opcode, t: ValueType, pos: Option<usize>)
        ensures
            final(self)@ == (FunctionView {
                code: old(self)@.code.push(Instruction::spec_new(code, Some(t), None, None, None)),
                pos: old(self)@.pos.push(pos),
                ..old(self)@
            }),
    {
        self.emit_inst(code, [Some(t), None, None], None, pos);
    }

    /// Appends an instruction with one type tag and an optional second one.
    pub fn emit_code_with_type2(
        &mut self,
        code: Opcode,
        t0: ValueType,
        t1: Option<ValueType>,
        pos: Option<usize>,
    )
        ensures
            final(self)@ == (FunctionView {
                code: old(self)@.code.push(Instruction::spec_new(code, Some(t0), t1, None, None)),
                pos: old(self)@.pos.push(pos),
                ..old(self)@
            }),
    {
        self.emit_inst(code, [Some(t0), t1, None], None, pos);
    }

    /// Appends an instruction with an immediate.
    pub fn emit_code_with_imm(&mut self, code: Opcode, imm: OpIndex, pos: Option<usize>)
        ensures
            final(self)@ == (FunctionView {
                code: old(self)@.code.push(Instruction::spec_new(code, None, None, None, Some(imm))),
                pos: old(self)@.pos.push(pos),
                ..old(self)@
            }),
    {
        self.emit_inst(code, [None, None, None], Some(imm), pos);
    }

    /// Appends an instruction with one type tag and an immediate.
    pub fn emit_code_with_type_imm(
        &mut self,
        code: Opcode,
        t: ValueType,
        imm: OpIndex,
        pos: Option<usize>,
    )
        ensures
            final(self)@ == (FunctionView {
                code: old(self)@.code.push(
                    Instruction::spec_new(code, Some(t), None, None, Some(imm)),
                ),
                pos: old(self)@.pos.push(pos),
                ..old(self)@
            }),
    {
        self.emit_inst(code, [Some(t), None, None], Some(imm), pos);
    }

    /// Appends an instruction with an immediate and, in the third tag slot,
    /// one for "the result comes with an ok flag" or zero.
    pub fn emit_code_with_flag_imm(
        &mut self,
        code: Opcode,
        comma_ok: bool,
        imm: OpIndex,
        pos: Option<usize>,
    )
        ensures
            final(self)@ == (FunctionView {
                code: old(self)@.code.push(
                    Instruction {
                        t2: if comma_ok {
                            1u8
                        } else {
                            0u8
                        },
                        ..Instruction::spec_new(code, None, None, None, Some(imm))
                    },
                ),
                pos: old(self)@.pos.push(pos),
                ..old(self)@
            }),
    {
        let mut inst = Instruction::new(code, None, None, None, Some(imm));
        let flag: i8 = if comma_ok {
            1
        } else {
            0
        };
        inst.set_t2_with_index(flag);
        self.code.push(inst);
        self.pos.push(pos);
    }

    /// Appends an instruction that is only an opcode.
    pub fn emit_code(&mut self, code: Opcode, pos: Option<usize>)
        ensures
            final(self)@ == (FunctionView {
                code: old(self)@.code.push(Instruction::spec_new(code, None, None, None, None)),
                pos: old(self)@.pos.push(pos),
                ..old(self)@
            }),
    {
        self.emit_inst(code, [None, None, None], None, pos);
    }

    /// The slot of the first constant of the pool that is the same value as
    /// `val`.
    pub fn get_const_index(&self, val: &GosValue) -> (r: Option<EntIndex>)
        requires
            self@.consts.len() <= i32::MAX,
        ensures
            r == match spec_const_index(self@.consts, *val) {
                Some(i) => Some(EntIndex::Const(i as OpIndex)),
                None => None,
            },
    {
        let mut i: usize = 0;
        while i < self.consts.len()
            invariant
                i <= self.consts@.len(),
                self.consts@.len() <= i32::MAX,
                self@.consts == self.consts@,
                forall|j: int| 0 <= j < i ==> !val.spec_identical(&#[trigger] self.consts@[j]),
            decreases self.consts@.len() - i,
        {
            if val.identical(&self.consts[i]) {
                proof {
                    lemma_const_index_is(self.consts@, *val, i as int);
                }
                return Some(EntIndex::Const(i as OpIndex));
            }
            i += 1;
        }
        proof {
            lemma_const_index_none(self.consts@, *val);
        }
        None
    }

    /// Gives out the next local slot and binds the entity to it, if there is
    /// one. An entity is bound once.
    pub fn add_local(&mut self, entity: Option<EntityKey>) -> (r: EntIndex)
        requires
            old(self)@.local_alloc < u16::MAX,
            entity matches Some(key) ==> !old(self)@.entities.contains_key(key@),
        ensures
            r == EntIndex::LocalVar(old(self)@.local_alloc as OpIndex),
            final(self)@ == (FunctionView {
                local_alloc: (old(self)@.local_alloc + 1) as u16,
                entities: match entity {
                    Some(key) => old(self)@.entities.insert(key@, r),
                    None => old(self)@.entities,
                },
                ..old(self)@
            }),
    {
        let result = self.local_alloc as OpIndex;
        if let Some(key) = entity {
            let bits = key.bits();
            self.entities.insert(bits, EntIndex::LocalVar(result));
        }
        self.local_alloc += 1;
        EntIndex::LocalVar(result)
    }

    /// Appends the zero value of a local.
    pub fn add_local_zero(&mut self, zero: GosValue)
        ensures
            final(self)@ == (FunctionView {
                local_zeros: old(self)@.local_zeros.push(zero),
                ..old(self)@
            }),
    {
        self.local_zeros.push(zero)
    }

    /// The slot of a constant. A value that is the same value as one in the
    /// pool shares its slot and nothing changes; another one gets a new slot
    /// at the end, and the entity, if there is one, is bound to it. An entity
    /// is bound once.
    pub fn add_const(&mut self, entity: Option<EntityKey>, cst: GosValue) -> (r: EntIndex)
        requires
            old(self)@.consts.len() < i32::MAX,
            entity matches Some(key) ==> spec_const_index(old(self)@.consts, cst) is Some
                || !old(self)@.entities.contains_key(key@),
        ensures
            match spec_const_index(old(self)@.consts, cst) {
                Some(i) => r == EntIndex::Const(i as OpIndex) && final(self)@ == old(self)@,
                None => r == EntIndex::Const(old(self)@.consts.len() as OpIndex) && final(self)@
                    == (FunctionView {
                    consts: old(self)@.consts.push(cst),
                    entities: match entity {
                        Some(key) => old(self)@.entities.insert(key@, r),
                        None => old(self)@.entities,
                    },
                    ..old(self)@
                }),
            },
            r is Const,
            spec_const_index(final(self)@.consts, cst) == Some(r->Const_0 as int),
    {
        if let Some(index) = self.get_const_index(&cst) {
            index
        } else {
            let ghost before = self.consts@;
            let result = self.consts.len() as OpIndex;
            proof {
                cst.lemma_identical_reflexive();
                assert(before.push(cst)[result as int] == cst);
                assert forall|j: int| 0 <= j < result implies !cst.spec_identical(
                    &#[trigger] before.push(cst)[j],
                ) by {
                    if cst.spec_identical(&before[j]) {
                        lemma_const_found(before, cst, j);
                    }
                }
                lemma_const_index_is(before.push(cst), cst, result as int);
            }
            self.consts.push(cst);
            if let Some(key) = entity {
                let bits = key.bits();
                self.entities.insert(bits, EntIndex::Const(result));
            }
            EntIndex::Const(result)
        }
    }

    /// The slot of a captured variable: the one the entity has, or a new one
    /// at the end of the captured variables.
    pub fn try_add_upvalue(&mut self, entity: &EntityKey, uv: ValueDesc) -> (r: EntIndex)
        requires
            old(self)@.up_ptrs.len() < i32::MAX,
        ensures
            if old(self)@.uv_entities.contains_key(entity@) {
                r == old(self)@.uv_entities[entity@] && final(self)@ == old(self)@
            } else {
                r == EntIndex::UpValue(old(self)@.up_ptrs.len() as OpIndex) && final(self)@ == (
                FunctionView {
                    up_ptrs: old(self)@.up_ptrs.push(uv),
                    uv_entities: old(self)@.uv_entities.insert(entity@, r),
                    ..old(self)@
                })
            },
    {
        let bits = entity.bits();
        let found: Option<EntIndex> = match self.uv_entities.get(&bits) {
            Some(i) => Some(*i),
            None => None,
        };
        match found {
            Some(i) => i,
            None => self.add_upvalue(entity, uv),
        }
    }

    fn add_upvalue(&mut self, entity: &EntityKey, uv: ValueDesc) -> (r: EntIndex)
        requires
            old(self)@.up_ptrs.len() < i32::MAX,
        ensures
            r == EntIndex::UpValue(old(self)@.up_ptrs.len() as OpIndex),
            final(self)@ == (FunctionView {
                up_ptrs: old(self)@.up_ptrs.push(uv),
                uv_entities: old(self)@.uv_entities.insert(entity@, r),
                ..old(self)@
            }),
    {
        self.up_ptrs.push(uv);
        let i = (self.up_ptrs.len() - 1) as OpIndex;
        let et = EntIndex::UpValue(i);
        let bits = entity.bits();
        self.uv_entities.insert(bits, et);
        et
    }
}

/// A value that stands somewhere in the pool has a first position.
pub proof fn lemma_const_found(consts: Seq<GosValue>, val: GosValue, i: int)
    requires
        0 <= i < consts.len(),
        val.spec_identical(&consts[i]),
    ensures
        spec_const_index(consts, val) is Some,
        spec_const_index(consts, val).unwrap() <= i,
    decreases i,
{
    if forall|j: int| 0 <= j < i ==> !val.spec_identical(&#[trigger] consts[j]) {
        lemma_const_index_is(consts, val, i);
    } else {
        let j = choose|j: int| 0 <= j < i && val.spec_identical(&#[trigger] consts[j]);
        lemma_const_found(consts, val, j);
    }
}

} // verus!
