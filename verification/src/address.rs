//! Typed identifiers naming a worker's mailbox.
//!
//! An address pairs a transport kind (a small integer; `LOCAL` means
//! in-process delivery) with a textual identifier.  The text form is
//! `"<transport-type>#<identifier>"`; a bare string with no `#` defaults
//! to the local transport type.

use vstd::prelude::*;
use vstd::string::StrSliceExecFns;
use vstd::string::StringExecFns;
use vstd::string::StringSliceAdditionalSpecFns;

use crate::bare::lemma_varint_canonical;
use crate::bare::lemma_varint_round_trip;
use crate::bare::read_variable_length_integer;
use crate::bare::starts_with;
use crate::bare::varint_bytes;
use crate::bare::varint_decode;
use crate::bare::write_variable_length_integer;

verus! {

/// The kind of transport an address belongs to.
pub type TransportType = u8;

/// The transport type denoting in-process delivery.
pub const LOCAL: TransportType = 0;

/// Mathematical model of an [`Address`]: its transport kind and the
/// characters of its identifier.
pub struct AddressView {
    pub transport: u8,
    pub name: Seq<char>,
}

/// A typed identifier naming a worker's mailbox.  Immutable once
/// constructed; equality and ordering are structural.
#[derive(Debug)]
pub struct Address {
    transport_type: TransportType,
    inner: String,
}

impl View for Address {
    type V = AddressView;

    closed spec fn view(&self) -> AddressView {
        AddressView { transport: self.transport_type, name: self.inner@ }
    }
}

impl Clone for Address {
    fn clone(&self) -> (r: Self)
        ensures
            r@ == self@,
    {
        Address { transport_type: self.transport_type, inner: self.inner.clone() }
    }
}

impl PartialEq for Address {
    fn eq(&self, other: &Self) -> (r: bool)
        ensures
            r == (self@ == other@),
    {
        let same = self.transport_type == other.transport_type && self.inner == other.inner;
        proof {
            if same {
                assert(self@.name =~= other@.name);
                assert(self@ =~= other@);
            }
        }
        same
    }
}

impl vstd::std_specs::cmp::PartialEqSpecImpl for Address {
    open spec fn obeys_eq_spec() -> bool {
        true
    }

    open spec fn eq_spec(&self, other: &Self) -> bool {
        self@ == other@
    }
}

impl Eq for Address {}

/// True of a decimal digit character.
pub open spec fn is_dec_digit(c: char) -> bool {
    '0' <= c && c <= '9'
}

/// The numeric value of one decimal digit.
pub open spec fn dec_digit_val(c: char) -> int {
    c as int - '0' as int
}

/// True when every character of `s` is a decimal digit.
pub open spec fn all_dec_digits(s: Seq<char>) -> bool {
    forall|i: int| 0 <= i < s.len() ==> is_dec_digit(#[trigger] s[i])
}

/// The value of `s` read as a decimal number, most significant digit first.
pub open spec fn dec_value(s: Seq<char>) -> int
    decreases s.len(),
{
    if s.len() == 0 {
        0
    } else {
        dec_value(s.drop_last()) * 10 + dec_digit_val(s.last())
    }
}

/// The position of the first occurrence of `c` in `s`, if any.
pub open spec fn find_char(s: Seq<char>, c: char) -> Option<int>
    decreases s.len(),
{
    if s.len() == 0 {
        None
    } else if s[0] == c {
        Some(0)
    } else {
        match find_char(s.subrange(1, s.len() as int), c) {
            Some(j) => Some(j + 1),
            None => None,
        }
    }
}

/// What [`Address::from_string`] reads out of a piece of text: a typed
/// address where a nonempty all-digit prefix (fitting in a `u8`) precedes
/// the first `#`, and a local address holding the whole text otherwise.
pub open spec fn parsed_address(s: Seq<char>) -> AddressView {
    match find_char(s, '#') {
        Some(j) => {
            let prefix = s.subrange(0, j);
            if j > 0 && all_dec_digits(prefix) && dec_value(prefix) <= 255 {
                AddressView { transport: dec_value(prefix) as u8, name: s.subrange(j + 1, s.len() as int) }
            } else {
                AddressView { transport: LOCAL, name: s }
            }
        },
        None => AddressView { transport: LOCAL, name: s },
    }
}

/// The character of one decimal digit.
pub open spec fn dec_digit_char(v: int) -> char {
    if v == 0 {
        '0'
    } else if v == 1 {
        '1'
    } else if v == 2 {
        '2'
    } else if v == 3 {
        '3'
    } else if v == 4 {
        '4'
    } else if v == 5 {
        '5'
    } else if v == 6 {
        '6'
    } else if v == 7 {
        '7'
    } else if v == 8 {
        '8'
    } else {
        '9'
    }
}

/// The decimal digits of a transport type, most significant first,
/// without leading zeros.
pub open spec fn dec_chars_u8(n: u8) -> Seq<char> {
    if n < 10 {
        seq![dec_digit_char(n as int)]
    } else if n < 100 {
        seq![dec_digit_char(n as int / 10), dec_digit_char(n as int % 10)]
    } else {
        seq![
            dec_digit_char(n as int / 100),
            dec_digit_char((n as int / 10) % 10),
            dec_digit_char(n as int % 10),
        ]
    }
}

/// The text form of an address: its transport type, `#`, its identifier.
pub open spec fn address_text(a: AddressView) -> Seq<char> {
    dec_chars_u8(a.transport) + seq!['#'] + a.name
}

/// True of a lower-case hexadecimal digit character.
pub open spec fn is_hex_digit_char(c: char) -> bool {
    ('0' <= c && c <= '9') || ('a' <= c && c <= 'f')
}

fn dec_digit_str(d: u8) -> (r: &'static str)
    requires
        d < 10,
    ensures
        r@ == seq![dec_digit_char(d as int)],
{
    proof {
        reveal_strlit("0");
        reveal_strlit("1");
        reveal_strlit("2");
        reveal_strlit("3");
        reveal_strlit("4");
        reveal_strlit("5");
        reveal_strlit("6");
        reveal_strlit("7");
        reveal_strlit("8");
        reveal_strlit("9");
    }
    let r: &'static str = if d == 0 {
        "0"
    } else if d == 1 {
        "1"
    } else if d == 2 {
        "2"
    } else if d == 3 {
        "3"
    } else if d == 4 {
        "4"
    } else if d == 5 {
        "5"
    } else if d == 6 {
        "6"
    } else if d == 7 {
        "7"
    } else if d == 8 {
        "8"
    } else {
        "9"
    };
    proof {
        assert(r@ =~= seq![dec_digit_char(d as int)]);
    }
    r
}

pub proof fn lemma_find_char_at(s: Seq<char>, c: char, j: int)
    requires
        0 <= j < s.len(),
        s[j] == c,
        forall|k: int| 0 <= k < j ==> s[k] != c,
    ensures
        find_char(s, c) == Some(j),
    decreases s.len(),
{
    if j == 0 {
    } else {
        let t = s.subrange(1, s.len() as int);
        assert(t[j - 1] == c);
        assert(forall|k: int| 0 <= k < j - 1 ==> t[k] == s[k + 1] && s[k + 1] != c);
        lemma_find_char_at(t, c, j - 1);
    }
}

pub proof fn lemma_find_char_none(s: Seq<char>, c: char)
    requires
        forall|k: int| 0 <= k < s.len() ==> s[k] != c,
    ensures
        find_char(s, c) is None,
    decreases s.len(),
{
    if s.len() > 0 {
        let t = s.subrange(1, s.len() as int);
        assert(forall|k: int| 0 <= k < t.len() ==> t[k] == s[k + 1] && s[k + 1] != c);
        lemma_find_char_none(t, c);
    }
}

/// Where `find_char` points, it points at the first occurrence.
pub proof fn lemma_find_char_props(s: Seq<char>, c: char)
    ensures
        match find_char(s, c) {
            Some(j) => 0 <= j < s.len() && s[j] == c,
            None => true,
        },
    decreases s.len(),
{
    if s.len() > 0 && s[0] != c {
        lemma_find_char_props(s.subrange(1, s.len() as int), c);
    }
}

pub proof fn lemma_dec_value_nonneg(s: Seq<char>)
    requires
        all_dec_digits(s),
    ensures
        dec_value(s) >= 0,
    decreases s.len(),
{
    if s.len() > 0 {
        assert(all_dec_digits(s.drop_last()));
        lemma_dec_value_nonneg(s.drop_last());
    }
}

/// A decimal number already over `bound` only grows as more digits
/// follow.
pub proof fn lemma_dec_value_grows(s: Seq<char>, n: int, bound: int)
    requires
        all_dec_digits(s),
        0 <= n <= s.len(),
        bound >= 0,
        dec_value(s.subrange(0, n)) > bound,
    ensures
        dec_value(s) > bound,
    decreases s.len() - n,
{
    if n < s.len() {
        let t = s.subrange(0, n + 1);
        assert(t.drop_last() =~= s.subrange(0, n));
        assert(all_dec_digits(t.drop_last()));
        lemma_dec_value_nonneg(s.subrange(0, n));
        assert(dec_value(t) == dec_value(s.subrange(0, n)) * 10 + dec_digit_val(t.last()));
        assert(dec_value(t) > bound);
        lemma_dec_value_grows(s, n + 1, bound);
    } else {
        assert(s.subrange(0, n) =~= s);
    }
}

impl Address {
    /// Build an address from a transport type and an identifier.
    pub fn new_with_string(transport_type: TransportType, address: &str) -> (r: Self)
        ensures
            r@.transport == transport_type,
            r@.name == address@,
    {
        Address { transport_type, inner: String::from_str(address) }
    }

    /// Read an address from its text form: a nonempty decimal transport
    /// type before the first `#`, or a local address when no such prefix
    /// is present.
    pub fn from_string(s: &str) -> (r: Self)
        ensures
            r@ == parsed_address(s@),
    {
        let n = s.unicode_len();
        // Find the first '#'.
        let mut i: usize = 0;
        let mut hash: Option<usize> = None;
        while i < n
            invariant_except_break
                hash is None,
            invariant
                0 <= i <= n,
                n == s@.len(),
                forall|k: int| 0 <= k < i ==> s@[k] != '#',
            ensures
                match hash {
                    Some(j) => 0 <= j < n && s@[j as int] == '#'
                        && forall|k: int| 0 <= k < j ==> s@[k] != '#',
                    None => forall|k: int| 0 <= k < n ==> s@[k] != '#',
                },
            decreases n - i,
        {
            if s.get_char(i) == '#' {
                hash = Some(i);
                break;
            }
            i += 1;
        }
        match hash {
            None => {
                proof {
                    lemma_find_char_none(s@, '#');
                }
                Address { transport_type: LOCAL, inner: String::from_str(s) }
            },
            Some(j) => {
                proof {
                    lemma_find_char_at(s@, '#', j as int);
                }
                if j == 0 {
                    return Address { transport_type: LOCAL, inner: String::from_str(s) };
                }
                // Read the decimal prefix, giving up as soon as it cannot
                // fit in a u8 or holds a non-digit.
                let mut value: u32 = 0;
                let mut k: usize = 0;
                while k < j
                    invariant
                        0 <= k <= j < n,
                        0 < j,
                        n == s@.len(),
                        find_char(s@, '#') == Some(j as int),
                        all_dec_digits(s@.subrange(0, k as int)),
                        value == dec_value(s@.subrange(0, k as int)),
                        value <= 255,
                    decreases j - k,
                {
                    let c = s.get_char(k);
                    if !('0' <= c && c <= '9') {
                        proof {
                            assert(s@.subrange(0, j as int)[k as int] == s@[k as int]);
                            assert(!is_dec_digit(s@[k as int]));
                        }
                        return Address { transport_type: LOCAL, inner: String::from_str(s) };
                    }
                    let d: u32 = (c as u32) - 48;
                    proof {
                        assert(s@.subrange(0, (k + 1) as int).drop_last() =~= s@.subrange(0, k as int));
                        assert(s@.subrange(0, (k + 1) as int).last() == s@[k as int]);
                    }
                    value = value * 10 + d;
                    k += 1;
                    if value > 255 {
                        proof {
                            let prefix = s@.subrange(0, j as int);
                            assert(prefix.subrange(0, k as int) =~= s@.subrange(0, k as int));
                            if all_dec_digits(prefix) {
                                lemma_dec_value_grows(prefix, k as int, 255);
                            }
                        }
                        return Address { transport_type: LOCAL, inner: String::from_str(s) };
                    }
                }
                proof {
                    assert(s@.subrange(0, k as int) =~= s@.subrange(0, j as int));
                }
                let name = s.substring_char(j + 1, n);
                Address { transport_type: value as u8, inner: String::from_str(name) }
            },
        }
    }

    /// The transport kind of this address.
    pub fn transport_type(&self) -> (r: TransportType)
        ensures
            r == self@.transport,
    {
        self.transport_type
    }

    /// The identifier of this address, without its transport type.
    pub fn address(&self) -> (r: &str)
        ensures
            r@ == self@.name,
    {
        self.inner.as_str()
    }

    /// True of an address delivered in-process.
    pub fn is_local(&self) -> (r: bool)
        ensures
            r == (self@.transport == LOCAL),
    {
        self.transport_type == LOCAL
    }

    /// The text form of this address: its transport type, `#`, its
    /// identifier.
    pub fn to_text(&self) -> (r: String)
        ensures
            r@ == address_text(self@),
    {
        proof {
            reveal_strlit("#");
        }
        let mut out = String::new();
        let tt = self.transport_type;
        if tt < 10 {
            out.append(dec_digit_str(tt));
        } else if tt < 100 {
            out.append(dec_digit_str(tt / 10));
            out.append(dec_digit_str(tt % 10));
        } else {
            out.append(dec_digit_str(tt / 100));
            out.append(dec_digit_str((tt / 10) % 10));
            out.append(dec_digit_str(tt % 10));
        }
        proof {
            assert(out@ =~= dec_chars_u8(tt));
        }
        out.append("#");
        out.append(self.inner.as_str());
        proof {
            assert(out@ =~= address_text(self@));
        }
        out
    }

    /// A fresh local address for an internal worker: the given tag, one
    /// underscore, and sixteen hexadecimal digits drawn at random.  The
    /// suffix's value is chance: every caller must be correct whatever
    /// was drawn.
    pub fn random_tagged(tag: &str) -> (r: Self)
        ensures
            r@.transport == LOCAL,
            r@.name.len() == tag@.len() + 17,
            r@.name.subrange(0, tag@.len() as int) == tag@,
            r@.name[tag@.len() as int] == '_',
            forall|q: int| tag@.len() + 1 <= q < r@.name.len()
                ==> is_hex_digit_char(#[trigger] r@.name[q]),
    {
        proof {
            reveal_strlit("_");
        }
        let mut name = String::from_str(tag);
        name.append("_");
        proof {
            assert(name@.subrange(0, tag@.len() as int) =~= tag@);
        }
        let mut suffix = crate::rng::random_u64();
        let mut k: usize = 0;
        while k < 16
            invariant
                0 <= k <= 16,
                name@.len() == tag@.len() + 1 + k,
                name@.subrange(0, tag@.len() as int) == tag@,
                name@[tag@.len() as int] == '_',
                forall|q: int| tag@.len() + 1 <= q < name@.len()
                    ==> is_hex_digit_char(#[trigger] name@[q]),
            decreases 16 - k,
        {
            let digit = suffix % 16;
            let piece: &str = if digit == 0 {
                "0"
            } else if digit == 1 {
                "1"
            } else if digit == 2 {
                "2"
            } else if digit == 3 {
                "3"
            } else if digit == 4 {
                "4"
            } else if digit == 5 {
                "5"
            } else if digit == 6 {
                "6"
            } else if digit == 7 {
                "7"
            } else if digit == 8 {
                "8"
            } else if digit == 9 {
                "9"
            } else if digit == 10 {
                "a"
            } else if digit == 11 {
                "b"
            } else if digit == 12 {
                "c"
            } else if digit == 13 {
                "d"
            } else if digit == 14 {
                "e"
            } else {
                "f"
            };
            proof {
                reveal_strlit("0");
                reveal_strlit("1");
                reveal_strlit("2");
                reveal_strlit("3");
                reveal_strlit("4");
                reveal_strlit("5");
                reveal_strlit("6");
                reveal_strlit("7");
                reveal_strlit("8");
                reveal_strlit("9");
                reveal_strlit("a");
                reveal_strlit("b");
                reveal_strlit("c");
                reveal_strlit("d");
                reveal_strlit("e");
                reveal_strlit("f");
                assert(piece@.len() == 1 && is_hex_digit_char(piece@[0]));
            }
            let ghost before = name@;
            name.append(piece);
            proof {
                assert(name@.subrange(0, tag@.len() as int) =~= before.subrange(0, tag@.len() as int));
            }
            suffix = suffix / 16;
            k += 1;
        }
        Address { transport_type: LOCAL, inner: name }
    }
}

/// Relies on `String::from_utf8`: valid UTF-8 bytes yield the string
/// those bytes spell, and anything else is rejected.
#[verifier::external_body]
fn string_from_utf8(bytes: Vec<u8>) -> (r: Option<String>)
    ensures
        r matches Some(s) ==> vstd::utf8::valid_utf8(bytes@) && s@ == vstd::utf8::decode_utf8(bytes@),
        r is None ==> !vstd::utf8::valid_utf8(bytes@),
{
    String::from_utf8(bytes).ok()
}

fn copy_range(data: &Vec<u8>, start: usize, len: usize) -> (r: Vec<u8>)
    requires
        start + len <= data@.len(),
    ensures
        r@ == data@.subrange(start as int, start as int + len as int),
{
    let dlen = data.len();
    let mut out: Vec<u8> = Vec::new();
    let mut i: usize = 0;
    while i < len
        invariant
            0 <= i <= len,
            start + len <= dlen,
            dlen == data@.len(),
            out@.len() == i,
            forall|k: int| 0 <= k < i ==> out@[k] == data@[start + k],
        decreases len - i,
    {
        out.push(data[start + i]);
        i += 1;
    }
    proof {
        assert(out@ =~= data@.subrange(start as int, start as int + len as int));
    }
    out
}

impl Address {
    /// The bytes of this address's identifier, as the wire encoding
    /// carries them: the UTF-8 form of its text.
    pub open spec fn name_bytes(&self) -> Seq<u8> {
        vstd::utf8::encode_utf8(self@.name)
    }

    /// The wire form of this address: one byte of transport type, the
    /// length of the identifier as a variable-length integer, then the
    /// identifier's bytes.
    pub open spec fn wire_bytes(&self) -> Seq<u8> {
        seq![self@.transport] + varint_bytes(self.name_bytes().len()) + self.name_bytes()
    }

    /// Append the wire form of this address to `buffer`.
    pub fn manual_encode(&self, buffer: &mut Vec<u8>)
        ensures
            final(buffer)@ == old(buffer)@ + self.wire_bytes(),
    {
        buffer.push(self.transport_type);
        let mut bytes = self.inner.as_str().as_bytes_vec();
        write_variable_length_integer(buffer, bytes.len() as u64);
        buffer.append(&mut bytes);
        proof {
            assert(buffer@ =~= old(buffer)@ + self.wire_bytes());
        }
    }

    /// How many bytes the wire form of this address takes.
    pub fn encoded_size(&self) -> (r: usize)
        ensures
            r == self.wire_bytes().len(),
    {
        let mut tmp: Vec<u8> = Vec::new();
        self.manual_encode(&mut tmp);
        tmp.len()
    }

    /// Read one address from `data` at `index`, advancing the index past
    /// it.  Both directions are fixed: an address comes back exactly when
    /// some address's wire form prefixes the buffer — so a truncated or
    /// malformed buffer is rejected — and what comes back is that
    /// address, the bytes consumed being exactly its wire form.
    pub fn manual_decode(data: &Vec<u8>, index: &mut usize) -> (r: Option<Address>)
        requires
            *old(index) <= data@.len(),
        ensures
            r matches Some(out) ==> {
                &&& *old(index) <= *final(index) <= data@.len()
                &&& *final(index) == *old(index) + out.wire_bytes().len()
                &&& data@.subrange(*old(index) as int, *final(index) as int) == out.wire_bytes()
            },
            forall|a: Address|
                starts_with(#[trigger] a.wire_bytes(), data@.subrange(*old(index) as int, data@.len() as int))
                    ==> (r matches Some(out) && out@ == a@
                        && *final(index) == *old(index) + a.wire_bytes().len()),
    {
        let ghost i0 = *index;
        let ghost tail = data@.subrange(i0 as int, data@.len() as int);
        if *index >= data.len() {
            proof {
                assert forall|a: Address| !starts_with(a.wire_bytes(), tail) by {
                    assert(a.wire_bytes().len() >= 2);
                }
            }
            return None;
        }
        let tt = data[*index];
        *index += 1;
        let ghost after_tt = data@.subrange(i0 + 1, data@.len() as int);
        proof {
            assert(tail[0] == tt);
            assert(after_tt =~= tail.subrange(1, tail.len() as int));
        }
        let len64 = match read_variable_length_integer(data, index) {
            Some(v) => v,
            None => {
                proof {
                    assert forall|a: Address| !starts_with(a.wire_bytes(), tail) by {
                        if starts_with(a.wire_bytes(), tail) {
                            lemma_address_wire_decomposition(a, tail, after_tt);
                        }
                    }
                }
                return None;
            },
        };
        let ghost varint_end = *index;
        if len64 > usize::MAX as u64 {
            proof {
                assert forall|a: Address| !starts_with(a.wire_bytes(), tail) by {
                    if starts_with(a.wire_bytes(), tail) {
                        lemma_address_wire_decomposition(a, tail, after_tt);
                    }
                }
            }
            return None;
        }
        let len = len64 as usize;
        if len > data.len() - *index {
            proof {
                assert forall|a: Address| !starts_with(a.wire_bytes(), tail) by {
                    if starts_with(a.wire_bytes(), tail) {
                        lemma_address_wire_decomposition(a, tail, after_tt);
                    }
                }
            }
            return None;
        }
        let bytes = copy_range(data, *index, len);
        let ghost name_start = *index;
        *index += len;
        match string_from_utf8(bytes) {
            Some(s) => {
                let out = Address { transport_type: tt, inner: s };
                proof {
                    broadcast use vstd::utf8::decode_utf8_encode_utf8;
                    broadcast use vstd::utf8::encode_utf8_decode_utf8;
                    broadcast use vstd::utf8::encode_utf8_valid_utf8;

                    assert(out.name_bytes() == data@.subrange(name_start as int, name_start + len as int));
                    // The bytes consumed are exactly this address's wire
                    // form: the transport byte, the canonical length, the
                    // identifier's bytes.
                    lemma_varint_canonical(after_tt);
                    let vlen = varint_end - (i0 + 1);
                    let vb = varint_bytes(len64 as nat);
                    assert(after_tt.subrange(0, vlen as int) == vb);
                    assert forall|y: int| 0 <= y < vlen implies data@[i0 + 1 + y] == vb[y] by {
                        assert(after_tt[y] == after_tt.subrange(0, vlen as int)[y]);
                    }
                    assert(out.name_bytes().len() == len64 as nat);
                    assert(out.wire_bytes() =~= seq![tt] + vb + bytes@);
                    assert forall|y: int| 0 <= y < *index - i0
                        implies data@.subrange(i0 as int, *index as int)[y] == out.wire_bytes()[y] by {
                        if y == 0 {
                        } else if y < 1 + vlen {
                            assert(data@[i0 + 1 + (y - 1)] == vb[y - 1]);
                        } else {
                            assert(bytes@[y - 1 - vlen] == data@[name_start + (y - 1 - vlen)]);
                        }
                    }
                    assert(data@.subrange(i0 as int, *index as int) =~= out.wire_bytes());
                    assert forall|a: Address| starts_with(a.wire_bytes(), tail)
                        implies out@ == a@ && *index == i0 + a.wire_bytes().len() by {
                        lemma_address_wire_decomposition(a, tail, after_tt);
                        assert(a.name_bytes() =~= data@.subrange(name_start as int, name_start + len as int));
                        assert(bytes@ == vstd::utf8::encode_utf8(a@.name));
                        assert(s@ == a@.name);
                    }
                }
                Some(out)
            },
            None => {
                proof {
                    broadcast use vstd::utf8::encode_utf8_valid_utf8;

                    assert forall|a: Address| !starts_with(a.wire_bytes(), tail) by {
                        if starts_with(a.wire_bytes(), tail) {
                            lemma_address_wire_decomposition(a, tail, after_tt);
                            assert(a.name_bytes() =~= bytes@);
                            assert(bytes@ == vstd::utf8::encode_utf8(a@.name));
                        }
                    }
                }
                None
            },
        }
    }
}

/// How a wire-encoded address at the front of `tail` breaks apart: the
/// transport byte, the identifier length, and the identifier bytes.
proof fn lemma_address_wire_decomposition(a: Address, tail: Seq<u8>, after_tt: Seq<u8>)
    requires
        starts_with(a.wire_bytes(), tail),
        tail.len() >= 1,
        after_tt == tail.subrange(1, tail.len() as int),
    ensures
        tail[0] == a@.transport,
        varint_decode(after_tt) == Some((a.name_bytes().len() as nat, varint_bytes(a.name_bytes().len()).len() as int)),
        1 + varint_bytes(a.name_bytes().len()).len() + a.name_bytes().len() == a.wire_bytes().len(),
        a.wire_bytes().len() <= tail.len(),
        a.name_bytes() == tail.subrange(
            1 + varint_bytes(a.name_bytes().len()).len() as int,
            a.wire_bytes().len() as int,
        ),
{
    let w = a.wire_bytes();
    let vlen = varint_bytes(a.name_bytes().len());
    assert(w[0] == a@.transport);
    assert(tail.subrange(0, w.len() as int) == w);
    assert forall|y: int| 0 <= y < w.len() implies tail[y] == w[y] by {
        assert(tail.subrange(0, w.len() as int)[y] == tail[y]);
    }
    assert(tail[0] == w[0]);
    let rest = tail.subrange(1 + vlen.len() as int, tail.len() as int);
    assert(after_tt =~= vlen + rest);
    lemma_varint_round_trip(a.name_bytes().len(), rest);
    assert(a.name_bytes() =~= tail.subrange(1 + vlen.len() as int, w.len() as int));
}

} // verus!
