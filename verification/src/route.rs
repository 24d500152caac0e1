//! Ordered hop sequences from a sender to a final recipient.
//!
//! A route is a sequence of [`Address`] values: the front is the next
//! hop, the back the final recipient.  Operations on an empty route fail
//! with [`RouteError::IncompleteRoute`] instead of panicking.  Routes are
//! built incrementally through [`RouteBuilder`] and consumed
//! destructively through [`Route::step`] during hop-by-hop delivery.

use std::collections::VecDeque;
use vstd::prelude::*;

use vstd::string::StringExecFns;

use crate::address::address_text;
use crate::address::Address;
use crate::address::AddressView;
use crate::address::TransportType;
use crate::address::LOCAL;
use crate::bare::lemma_starts_with_concat;
use crate::bare::lemma_varint_canonical;
use crate::bare::lemma_varint_round_trip;
use crate::bare::read_variable_length_integer;
use crate::bare::starts_with;
use crate::bare::varint_bytes;
use crate::bare::varint_decode;
use crate::bare::write_variable_length_integer;

verus! {

/// Failure of a route operation.
#[derive(Clone, Copy, Debug, PartialEq, Eq, Structural)]
pub enum RouteError {
    /// An empty route was asked for a hop.
    IncompleteRoute,
}

/// A full route to a peer: the ordered hops to traverse, front first.
#[derive(Debug)]
pub struct Route {
    inner: VecDeque<Address>,
}

/// A utility type for building and manipulating routes.
#[derive(Debug)]
pub struct RouteBuilder {
    inner: VecDeque<Address>,
}

/// The hops of a sequence of addresses, as their mathematical models.
pub open spec fn hops_of(s: Seq<Address>) -> Seq<AddressView> {
    Seq::new(s.len(), |i: int| s[i]@)
}

impl View for Route {
    type V = Seq<AddressView>;

    closed spec fn view(&self) -> Seq<AddressView> {
        hops_of(self.inner@)
    }
}

impl View for RouteBuilder {
    type V = Seq<AddressView>;

    closed spec fn view(&self) -> Seq<AddressView> {
        hops_of(self.inner@)
    }
}

impl Clone for Route {
    fn clone(&self) -> (r: Self)
        ensures
            r@ == self@,
    {
        let mut copy: VecDeque<Address> = VecDeque::new();
        let n = self.inner.len();
        let mut i: usize = 0;
        while i < n
            invariant
                0 <= i <= n,
                n == self.inner@.len(),
                copy@.len() == i,
                forall|k: int| 0 <= k < i ==> copy@[k]@ == self.inner@[k]@,
            decreases n - i,
        {
            copy.push_back(self.inner[i].clone());
            i += 1;
        }
        let r = Route { inner: copy };
        proof {
            assert(r@ =~= self@);
        }
        r
    }
}

impl PartialEq for Route {
    fn eq(&self, other: &Self) -> (r: bool)
        ensures
            r == (self@ == other@),
    {
        if self.inner.len() != other.inner.len() {
            proof {
                assert(self@.len() != other@.len());
            }
            return false;
        }
        let n = self.inner.len();
        let mut i: usize = 0;
        while i < n
            invariant
                0 <= i <= n,
                n == self.inner@.len(),
                n == other.inner@.len(),
                forall|k: int| 0 <= k < i ==> self.inner@[k]@ == other.inner@[k]@,
            decreases n - i,
        {
            if !(self.inner[i] == other.inner[i]) {
                proof {
                    assert(self@[i as int] != other@[i as int]);
                }
                return false;
            }
            i += 1;
        }
        proof {
            assert(self@ =~= other@);
        }
        true
    }
}

impl vstd::std_specs::cmp::PartialEqSpecImpl for Route {
    open spec fn obeys_eq_spec() -> bool {
        true
    }

    open spec fn eq_spec(&self, other: &Self) -> bool {
        self@ == other@
    }
}

impl Eq for Route {}

/// True when `needle` appears contiguously within `haystack`.
pub open spec fn route_contains(haystack: Seq<AddressView>, needle: Seq<AddressView>) -> bool {
    exists|i: int| 0 <= i && i + needle.len() <= haystack.len()
        && needle == #[trigger] haystack.subrange(i, i + needle.len() as int)
}

/// Stepping a route consumes hops strictly in front-to-back order: the
/// first step yields the front hop and leaves the others untouched, so
/// a second step yields what was originally the second hop, and so on.
pub proof fn lemma_step_consumes_in_order(r: Seq<AddressView>)
    requires
        r.len() >= 2,
    ensures
        r.subrange(1, r.len() as int)[0] == r[1],
        r.subrange(1, r.len() as int).subrange(1, r.len() - 1) == r.subrange(2, r.len() as int),
{
    assert(r.subrange(1, r.len() as int).subrange(1, r.len() - 1) =~= r.subrange(2, r.len() as int));
}

/// The text form of a route: its hops' text forms, joined by the hop
/// separator.
pub open spec fn route_text(hops: Seq<AddressView>) -> Seq<char>
    decreases hops.len(),
{
    if hops.len() == 0 {
        Seq::empty()
    } else if hops.len() == 1 {
        address_text(hops[0])
    } else {
        address_text(hops[0]) + " => "@ + route_text(hops.drop_first())
    }
}

proof fn lemma_route_text_snoc(hops: Seq<AddressView>, a: AddressView)
    ensures
        route_text(hops.push(a)) == if hops.len() == 0 {
            address_text(a)
        } else {
            route_text(hops) + " => "@ + address_text(a)
        },
    decreases hops.len(),
{
    if hops.len() == 0 {
        assert(hops.push(a)[0] == a);
    } else {
        assert(hops.push(a)[0] == hops[0]);
        assert(hops.push(a).drop_first() =~= hops.drop_first().push(a));
        lemma_route_text_snoc(hops.drop_first(), a);
        if hops.len() == 1 {
            assert(hops.drop_first() =~= Seq::<AddressView>::empty());
            assert(route_text(hops.push(a)) =~= route_text(hops) + " => "@ + address_text(a));
        } else {
            assert(route_text(hops.push(a)) =~= route_text(hops) + " => "@ + address_text(a));
        }
    }
}

/// True of the characters that [`Route::parse`] strips from the ends of
/// a hop.
pub open spec fn is_space_char(c: char) -> bool {
    c == ' ' || c == '\t' || c == '\n' || c == '\r'
}

fn is_space(c: char) -> (r: bool)
    ensures
        r == is_space_char(c),
{
    c == ' ' || c == '\t' || c == '\n' || c == '\r'
}

/// `s` without its leading whitespace.
pub open spec fn trim_start_spec(s: Seq<char>) -> Seq<char>
    decreases s.len(),
{
    if s.len() > 0 && is_space_char(s[0]) {
        trim_start_spec(s.subrange(1, s.len() as int))
    } else {
        s
    }
}

/// `s` without its trailing whitespace.
pub open spec fn trim_end_spec(s: Seq<char>) -> Seq<char>
    decreases s.len(),
{
    if s.len() > 0 && is_space_char(s.last()) {
        trim_end_spec(s.drop_last())
    } else {
        s
    }
}

/// `s` without leading or trailing whitespace.
pub open spec fn trim_spec(s: Seq<char>) -> Seq<char> {
    trim_end_spec(trim_start_spec(s))
}

/// The position of the first hop separator `"=>"` in `s`, if any.
pub open spec fn find_arrow(s: Seq<char>) -> Option<int>
    decreases s.len(),
{
    if s.len() < 2 {
        None
    } else if s[0] == '=' && s[1] == '>' {
        Some(0)
    } else {
        match find_arrow(s.subrange(1, s.len() as int)) {
            Some(j) => Some(j + 1),
            None => None,
        }
    }
}

proof fn lemma_find_arrow_props(s: Seq<char>)
    ensures
        match find_arrow(s) {
            Some(j) => 0 <= j && j + 2 <= s.len() && s[j] == '=' && s[j + 1] == '>',
            None => true,
        },
    decreases s.len(),
{
    if s.len() >= 2 && !(s[0] == '=' && s[1] == '>') {
        lemma_find_arrow_props(s.subrange(1, s.len() as int));
    }
}

/// The pieces of `s` between its hop separators, in order.  A text
/// without separators is one piece; each separator ends a piece, so a
/// trailing separator yields a final empty piece.
pub open spec fn split_arrow(s: Seq<char>) -> Seq<Seq<char>>
    decreases s.len() via split_arrow_dec
{
    match find_arrow(s) {
        None => seq![s],
        Some(j) => seq![s.subrange(0, j)] + split_arrow(s.subrange(j + 2, s.len() as int)),
    }
}

#[via_fn]
proof fn split_arrow_dec(s: Seq<char>) {
    lemma_find_arrow_props(s);
}

/// The hops that a piece of text describes: its pieces between hop
/// separators, each trimmed and read as an address.
pub open spec fn hops_of_text(s: Seq<char>) -> Seq<AddressView> {
    split_arrow(s).map_values(|h: Seq<char>| crate::address::parsed_address(trim_spec(h)))
}

proof fn lemma_find_arrow_at(s: Seq<char>, j: int)
    requires
        0 <= j,
        j + 2 <= s.len(),
        s[j] == '=',
        s[j + 1] == '>',
        forall|k: int| 0 <= k < j ==> !((#[trigger] s[k]) == '=' && s[k + 1] == '>'),
    ensures
        find_arrow(s) == Some(j),
    decreases s.len(),
{
    if j == 0 {
    } else {
        assert(!(s[0] == '=' && s[1] == '>'));
        let t = s.subrange(1, s.len() as int);
        assert(t[j - 1] == '=' && t[j] == '>');
        assert(forall|k: int| 0 <= k < j - 1 ==> (#[trigger] t[k]) == s[k + 1] && t[k + 1] == s[k + 2]);
        lemma_find_arrow_at(t, j - 1);
    }
}

proof fn lemma_find_arrow_none(s: Seq<char>)
    requires
        forall|k: int| 0 <= k && k + 1 < s.len() ==> !((#[trigger] s[k]) == '=' && s[k + 1] == '>'),
    ensures
        find_arrow(s) is None,
    decreases s.len(),
{
    if s.len() >= 2 {
        assert(!(s[0] == '=' && s[1] == '>'));
        let t = s.subrange(1, s.len() as int);
        assert(forall|k: int| 0 <= k && k + 1 < t.len() ==> (#[trigger] t[k]) == s[k + 1] && t[k + 1] == s[k + 2]);
        lemma_find_arrow_none(t);
    }
}

proof fn lemma_hops_of_text_step(t: Seq<char>)
    ensures
        match find_arrow(t) {
            Some(j) => hops_of_text(t) == seq![crate::address::parsed_address(trim_spec(t.subrange(0, j)))]
                + hops_of_text(t.subrange(j + 2, t.len() as int)),
            None => hops_of_text(t) == seq![crate::address::parsed_address(trim_spec(t))],
        },
{
    lemma_find_arrow_props(t);
    let f = |h: Seq<char>| crate::address::parsed_address(trim_spec(h));
    match find_arrow(t) {
        Some(j) => {
            let rest = t.subrange(j + 2, t.len() as int);
            assert(split_arrow(t) == seq![t.subrange(0, j)] + split_arrow(rest));
            assert(hops_of_text(t) =~= seq![f(t.subrange(0, j))] + split_arrow(rest).map_values(f));
        },
        None => {
            assert(split_arrow(t) == seq![t]);
            assert(hops_of_text(t) =~= seq![f(t)]);
        },
    }
}

proof fn lemma_trim_start_at(s: Seq<char>, a: int)
    requires
        0 <= a <= s.len(),
        forall|k: int| 0 <= k < a ==> is_space_char(#[trigger] s[k]),
        a < s.len() ==> !is_space_char(s[a]),
    ensures
        trim_start_spec(s) == s.subrange(a, s.len() as int),
    decreases s.len(),
{
    if a == 0 {
        if s.len() > 0 {
            assert(trim_start_spec(s) == s);
        }
        assert(s.subrange(0, s.len() as int) =~= s);
    } else {
        assert(is_space_char(s[0]));
        let t = s.subrange(1, s.len() as int);
        assert(forall|k: int| 0 <= k < a - 1 ==> t[k] == s[k + 1]);
        lemma_trim_start_at(t, a - 1);
        assert(t.subrange(a - 1, t.len() as int) =~= s.subrange(a, s.len() as int));
    }
}

proof fn lemma_trim_end_at(s: Seq<char>, b: int)
    requires
        0 <= b <= s.len(),
        forall|k: int| b <= k < s.len() ==> is_space_char(#[trigger] s[k]),
        b > 0 ==> !is_space_char(s[b - 1]),
    ensures
        trim_end_spec(s) == s.subrange(0, b),
    decreases s.len(),
{
    if b == s.len() {
        if s.len() > 0 {
            assert(!is_space_char(s.last()));
        }
        assert(s.subrange(0, s.len() as int) =~= s);
    } else {
        assert(is_space_char(s.last()));
        let t = s.drop_last();
        assert(forall|k: int| b <= k < t.len() ==> t[k] == s[k]);
        lemma_trim_end_at(t, b);
        assert(t.subrange(0, b) =~= s.subrange(0, b));
    }
}

/// Find the first hop separator `"=>"` at or after `pos`, as an absolute
/// position in `s`.
fn find_arrow_from(s: &str, pos: usize, n: usize) -> (r: Option<usize>)
    requires
        n == s@.len(),
        pos <= n,
    ensures
        match r {
            Some(j) => pos <= j && j + 2 <= n
                && find_arrow(s@.subrange(pos as int, n as int)) == Some(j - pos),
            None => find_arrow(s@.subrange(pos as int, n as int)) is None,
        },
{
    let ghost t = s@.subrange(pos as int, n as int);
    let mut i: usize = pos;
    let mut arrow: Option<usize> = None;
    if n == 0 {
        proof {
            lemma_find_arrow_none(t);
        }
        return None;
    }
    while i < n - 1
        invariant_except_break
            arrow is None,
        invariant
            pos <= i <= n,
            n == s@.len(),
            1 <= n,
            forall|k: int| pos <= k < i ==> !((#[trigger] s@[k]) == '=' && s@[k + 1] == '>'),
        ensures
            match arrow {
                Some(j) => pos <= j && j + 2 <= n && s@[j as int] == '=' && s@[j + 1] == '>'
                    && forall|k: int| pos <= k < j ==> !((#[trigger] s@[k]) == '=' && s@[k + 1] == '>'),
                None => forall|k: int| pos <= k && k + 1 < n ==> !((#[trigger] s@[k]) == '=' && s@[k + 1] == '>'),
            },
        decreases n - i,
    {
        if s.get_char(i) == '=' && s.get_char(i + 1) == '>' {
            arrow = Some(i);
            break;
        }
        i += 1;
    }
    proof {
        assert(forall|k: int| 0 <= k && k + 1 < t.len() ==> (#[trigger] t[k]) == s@[k + pos] && t[k + 1] == s@[k + pos + 1]);
        match arrow {
            Some(j) => {
                lemma_find_arrow_at(t, j as int - pos);
            },
            None => {
                lemma_find_arrow_none(t);
            },
        }
    }
    arrow
}

/// Trim the piece `[pos, end)` of `s` of surrounding whitespace and read
/// it as an address.
fn trimmed_hop(s: &str, pos: usize, end: usize) -> (addr: Address)
    requires
        pos <= end <= s@.len(),
    ensures
        addr@ == crate::address::parsed_address(trim_spec(s@.subrange(pos as int, end as int))),
{
    let mut a: usize = pos;
    loop
        invariant
            pos <= a <= end <= s@.len(),
            forall|k: int| pos <= k < a ==> is_space_char(#[trigger] s@[k]),
        ensures
            pos <= a <= end,
            forall|k: int| pos <= k < a ==> is_space_char(#[trigger] s@[k]),
            a < end ==> !is_space_char(s@[a as int]),
        decreases end - a,
    {
        if a >= end {
            break;
        }
        if !is_space(s.get_char(a)) {
            break;
        }
        a += 1;
    }
    let mut b: usize = end;
    loop
        invariant
            a <= b <= end <= s@.len(),
            forall|k: int| b <= k < end ==> is_space_char(#[trigger] s@[k]),
        ensures
            a <= b <= end,
            forall|k: int| b <= k < end ==> is_space_char(#[trigger] s@[k]),
            b > a ==> !is_space_char(s@[b - 1]),
        decreases b,
    {
        if b <= a {
            break;
        }
        if !is_space(s.get_char(b - 1)) {
            break;
        }
        b -= 1;
    }
    let hop = s.substring_char(a, b);
    let addr = Address::from_string(hop);
    proof {
        let seg = s@.subrange(pos as int, end as int);
        assert(forall|k: int| 0 <= k < seg.len() ==> seg[k] == s@[k + pos]);
        lemma_trim_start_at(seg, a as int - pos);
        let mid = seg.subrange(a as int - pos, seg.len() as int);
        assert(mid =~= s@.subrange(a as int, end as int));
        assert(forall|k: int| 0 <= k < mid.len() ==> mid[k] == s@[k + a]);
        lemma_trim_end_at(mid, b as int - a);
        assert(mid.subrange(0, b as int - a) =~= s@.subrange(a as int, b as int));
        assert(trim_spec(seg) == s@.subrange(a as int, b as int));
        assert(hop@ == trim_spec(seg));
    }
    addr
}

impl Route {
    /// Create an empty [`RouteBuilder`].
    pub fn new() -> (r: RouteBuilder)
        ensures
            r@ == Seq::<AddressView>::empty(),
    {
        RouteBuilder::new()
    }

    /// Create a route from a vector of addresses, front hop first.
    pub fn create(vt: Vec<Address>) -> (r: Self)
        ensures
            r@ == hops_of(vt@),
    {
        let mut builder = Route::new();
        let n = vt.len();
        let mut i: usize = 0;
        while i < n
            invariant
                0 <= i <= n,
                n == vt@.len(),
                builder@.len() == i,
                forall|k: int| 0 <= k < i ==> builder@[k] == vt@[k]@,
            decreases n - i,
        {
            builder = builder.append(vt[i].clone());
            i += 1;
        }
        let r = builder.build();
        proof {
            assert(r@ =~= hops_of(vt@));
        }
        r
    }

    /// Parse a route from a string: hops are separated by `"=>"`, and
    /// each hop is trimmed of surrounding whitespace before it is read
    /// as an address.  Empty input yields no route rather than a route
    /// with one empty hop.
    pub fn parse(s: &str) -> (r: Option<Route>)
        ensures
            s@.len() == 0 ==> r is None,
            s@.len() > 0 ==> (r matches Some(route) && route@ == hops_of_text(s@)),
    {
        let n = s.unicode_len();
        if n == 0 {
            return None;
        }
        let mut builder = Route::new();
        let mut pos: usize = 0;
        proof {
            assert(s@.subrange(0, n as int) =~= s@);
            assert(Seq::<AddressView>::empty() + hops_of_text(s@) =~= hops_of_text(s@));
        }
        loop
            invariant_except_break
                builder@ + hops_of_text(s@.subrange(pos as int, n as int)) == hops_of_text(s@),
            invariant
                0 <= pos <= n,
                n == s@.len(),
                1 <= n,
            ensures
                builder@ == hops_of_text(s@),
            decreases n - pos,
        {
            let ghost t = s@.subrange(pos as int, n as int);
            let arrow = find_arrow_from(s, pos, n);
            let end: usize = match arrow {
                Some(j) => j,
                None => n,
            };
            proof {
                lemma_hops_of_text_step(t);
            }
            let addr = trimmed_hop(s, pos, end);
            builder = builder.append(addr);
            match arrow {
                Some(j) => {
                    proof {
                        assert(t.subrange(0, j - pos) =~= s@.subrange(pos as int, end as int));
                        assert(t.subrange(j - pos + 2, t.len() as int) =~= s@.subrange(j + 2, n as int));
                        assert(builder@ + hops_of_text(s@.subrange(j + 2, n as int)) =~= hops_of_text(s@));
                    }
                    pos = j + 2;
                },
                None => {
                    proof {
                        assert(t =~= s@.subrange(pos as int, end as int));
                        assert(builder@ =~= hops_of_text(s@));
                    }
                    break;
                },
            }
        }
        Some(builder.build())
    }

    /// True when the hops of `needle` appear contiguously within this
    /// route's hops.
    fn matches_at(&self, needle: &Route, i: usize) -> (r: bool)
        requires
            i + needle@.len() <= self@.len(),
        ensures
            r == (needle@ == self@.subrange(i as int, i + needle@.len())),
    {
        let hl = self.inner.len();
        let nl = needle.inner.len();
        let mut k: usize = 0;
        while k < nl
            invariant
                0 <= k <= nl,
                nl == needle@.len(),
                hl == self@.len(),
                i + nl <= hl,
                forall|q: int| 0 <= q < k ==> needle@[q] == self@[i + q],
            decreases nl - k,
        {
            if !(self.inner[i + k] == needle.inner[k]) {
                proof {
                    assert(needle@[k as int] != self@.subrange(i as int, i + needle@.len())[k as int]);
                }
                return false;
            }
            k += 1;
        }
        proof {
            assert(needle@ =~= self@.subrange(i as int, i + needle@.len()));
        }
        true
    }

    /// Returns true if this route contains `needle`: its hop sequence
    /// appears contiguously in this route's.  Fails if `needle` is an
    /// empty route; a needle longer than this route is merely absent.
    pub fn contains_route(&self, needle: &Route) -> (r: Result<bool, RouteError>)
        ensures
            needle@.len() == 0 ==> r is Err && r->Err_0 == RouteError::IncompleteRoute,
            needle@.len() > 0 ==> r is Ok && r->Ok_0 == route_contains(self@, needle@),
    {
        if needle.inner.len() == 0 {
            return Err(RouteError::IncompleteRoute);
        }
        let hl = self.inner.len();
        let nl = needle.inner.len();
        if nl > hl {
            return Ok(false);
        }
        let mut i: usize = 0;
        while i <= hl - nl
            invariant
                0 <= i <= hl - nl + 1,
                hl == self@.len(),
                nl == needle@.len(),
                1 <= nl <= hl,
                forall|p: int| 0 <= p < i ==> needle@ != #[trigger] self@.subrange(p, p + nl as int),
            decreases hl - nl - i + 1,
        {
            if self.matches_at(needle, i) {
                return Ok(true);
            }
            i += 1;
        }
        proof {
            assert(forall|p: int| 0 <= p && p + nl <= hl ==> needle@ != #[trigger] self@.subrange(p, p + nl as int));
        }
        Ok(false)
    }

    /// Create a new [`RouteBuilder`] holding the hops of this route.
    pub fn modify(self) -> (r: RouteBuilder)
        ensures
            r@ == self@,
    {
        RouteBuilder { inner: self.inner }
    }

    /// Return the next address and remove it from this route.  Fails on
    /// an empty route, which it leaves unchanged.
    pub fn step(&mut self) -> (r: Result<Address, RouteError>)
        ensures
            old(self)@.len() > 0 ==> r is Ok && r->Ok_0@ == old(self)@[0]
                && final(self)@ == old(self)@.subrange(1, old(self)@.len() as int),
            old(self)@.len() == 0 ==> r == Result::<Address, RouteError>::Err(RouteError::IncompleteRoute)
                && final(self)@ == old(self)@,
    {
        match self.inner.pop_front() {
            Some(addr) => {
                proof {
                    assert(self@ =~= old(self)@.subrange(1, old(self)@.len() as int));
                }
                Ok(addr)
            },
            None => Err(RouteError::IncompleteRoute),
        }
    }

    /// Return the next address of this route without removing it.
    pub fn next(&self) -> (r: Result<&Address, RouteError>)
        ensures
            self@.len() > 0 ==> r is Ok && r->Ok_0@ == self@[0],
            self@.len() == 0 ==> r is Err && r->Err_0 == RouteError::IncompleteRoute,
    {
        if self.inner.len() > 0 {
            Ok(&self.inner[0])
        } else {
            Err(RouteError::IncompleteRoute)
        }
    }

    /// Return the final recipient address.
    pub fn recipient(&self) -> (r: Result<&Address, RouteError>)
        ensures
            self@.len() > 0 ==> r is Ok && r->Ok_0@ == self@[self@.len() - 1],
            self@.len() == 0 ==> r is Err && r->Err_0 == RouteError::IncompleteRoute,
    {
        let n = self.inner.len();
        if n > 0 {
            Ok(&self.inner[n - 1])
        } else {
            Err(RouteError::IncompleteRoute)
        }
    }

    /// The addresses of this route, front hop first.
    pub fn iter(&self) -> (r: Vec<Address>)
        ensures
            hops_of(r@) == self@,
    {
        let n = self.inner.len();
        let mut out: Vec<Address> = Vec::new();
        let mut i: usize = 0;
        while i < n
            invariant
                0 <= i <= n,
                n == self.inner@.len(),
                out@.len() == i,
                forall|k: int| 0 <= k < i ==> out@[k]@ == self.inner@[k]@,
            decreases n - i,
        {
            out.push(self.inner[i].clone());
            i += 1;
        }
        proof {
            assert(hops_of(out@) =~= self@);
        }
        out
    }

    /// Number of hops.
    pub fn len(&self) -> (r: usize)
        ensures
            r == self@.len(),
    {
        self.inner.len()
    }

    /// Returns true if the route is empty.
    pub fn is_empty(&self) -> (r: bool)
        ensures
            r == (self@.len() == 0),
    {
        self.inner.len() == 0
    }

    /// Return true if all the addresses composing this route are local.
    pub fn is_local(&self) -> (r: bool)
        ensures
            r == forall|i: int| 0 <= i < self@.len() ==> #[trigger] self@[i].transport == LOCAL,
    {
        let n = self.inner.len();
        let mut i: usize = 0;
        while i < n
            invariant
                0 <= i <= n,
                n == self.inner@.len(),
                forall|k: int| 0 <= k < i ==> #[trigger] hops_of(self.inner@)[k].transport == LOCAL,
            decreases n - i,
        {
            if !self.inner[i].is_local() {
                proof {
                    assert(self@[i as int].transport != LOCAL);
                }
                return false;
            }
            i += 1;
        }
        true
    }

    /// The text form of this route: its hops joined by the hop
    /// separator.
    pub fn to_text(&self) -> (r: String)
        ensures
            r@ == route_text(self@),
    {
        let mut out = String::new();
        let n = self.inner.len();
        let mut i: usize = 0;
        proof {
            assert(self@.subrange(0, 0) =~= Seq::<AddressView>::empty());
        }
        while i < n
            invariant
                0 <= i <= n,
                n == self.inner@.len(),
                out@ == route_text(self@.subrange(0, i as int)),
            decreases n - i,
        {
            if i > 0 {
                out.append(" => ");
            }
            let hop_text = self.inner[i].to_text();
            out.append(hop_text.as_str());
            proof {
                let prefix = self@.subrange(0, i as int);
                assert(self@.subrange(0, (i + 1) as int) =~= prefix.push(self@[i as int]));
                lemma_route_text_snoc(prefix, self@[i as int]);
                assert(self@[i as int] == self.inner@[i as int]@);
            }
            i += 1;
        }
        proof {
            assert(self@.subrange(0, n as int) =~= self@);
        }
        out
    }

    /// Hand back the hops held by this route.
    pub fn inner(self) -> (r: VecDeque<Address>)
        ensures
            hops_of(r@) == self@,
    {
        self.inner
    }
}

/// The wire form of a sequence of addresses, one after another.
pub open spec fn addresses_wire_bytes(s: Seq<Address>) -> Seq<u8>
    decreases s.len(),
{
    if s.len() == 0 {
        Seq::empty()
    } else {
        s[0].wire_bytes() + addresses_wire_bytes(s.drop_first())
    }
}

proof fn lemma_addresses_wire_snoc(s: Seq<Address>)
    requires
        s.len() > 0,
    ensures
        addresses_wire_bytes(s) == addresses_wire_bytes(s.drop_last()) + s.last().wire_bytes(),
    decreases s.len(),
{
    if s.len() == 1 {
        assert(s.drop_last() =~= Seq::<Address>::empty());
        assert(s.drop_first() =~= Seq::<Address>::empty());
        assert(addresses_wire_bytes(s.drop_last()) + s.last().wire_bytes() =~= s[0].wire_bytes() + addresses_wire_bytes(s.drop_first()));
    } else {
        let t = s.drop_first();
        lemma_addresses_wire_snoc(t);
        assert(t.drop_last() =~= s.drop_last().drop_first());
        assert(s.drop_last()[0] == s[0]);
        assert(addresses_wire_bytes(s) =~= addresses_wire_bytes(s.drop_last()) + s.last().wire_bytes());
    }
}

proof fn lemma_addresses_wire_len(s: Seq<Address>)
    ensures
        addresses_wire_bytes(s).len() >= 2 * s.len(),
    decreases s.len(),
{
    if s.len() > 0 {
        assert(s[0].wire_bytes().len() >= 2);
        lemma_addresses_wire_len(s.drop_first());
    }
}

impl Route {
    /// The wire form of this route: its hop count as a variable-length
    /// integer, then each hop's own wire form, front to back.
    pub closed spec fn wire_bytes(&self) -> Seq<u8> {
        varint_bytes(self.inner@.len()) + addresses_wire_bytes(self.inner@)
    }

    /// Append the wire form of this route to `buffer`.
    pub fn manual_encode(&self, buffer: &mut Vec<u8>)
        ensures
            final(buffer)@ == old(buffer)@ + self.wire_bytes(),
    {
        let n = self.inner.len();
        write_variable_length_integer(buffer, n as u64);
        let mut i: usize = 0;
        while i < n
            invariant
                0 <= i <= n,
                n == self.inner@.len(),
                buffer@ == old(buffer)@ + varint_bytes(n as nat) + addresses_wire_bytes(self.inner@.subrange(0, i as int)),
            decreases n - i,
        {
            self.inner[i].manual_encode(buffer);
            proof {
                let done = self.inner@.subrange(0, (i + 1) as int);
                assert(done.drop_last() =~= self.inner@.subrange(0, i as int));
                lemma_addresses_wire_snoc(done);
                assert(buffer@ =~= old(buffer)@ + varint_bytes(n as nat) + addresses_wire_bytes(done));
            }
            i += 1;
        }
        proof {
            assert(self.inner@.subrange(0, n as int) =~= self.inner@);
            assert(buffer@ =~= old(buffer)@ + self.wire_bytes());
        }
    }

    /// How many bytes the wire form of this route takes.
    pub fn encoded_size(&self) -> (r: usize)
        ensures
            r == self.wire_bytes().len(),
    {
        let mut tmp: Vec<u8> = Vec::new();
        self.manual_encode(&mut tmp);
        tmp.len()
    }

    /// The wire form of this route as a fresh buffer.
    pub fn encode(&self) -> (r: Vec<u8>)
        ensures
            r@ == self.wire_bytes(),
    {
        let mut buffer: Vec<u8> = Vec::new();
        self.manual_encode(&mut buffer);
        buffer
    }

    /// Read one route from `data` at `index`, advancing the index past
    /// it.  Both directions are fixed: a route comes back exactly when
    /// some route's wire form prefixes the buffer — so a truncated or
    /// malformed buffer is rejected — and the bytes consumed are exactly
    /// the returned route's wire form.  In particular, encoding a route
    /// and decoding the result yields an equal route, whatever follows
    /// it in the buffer.
    pub fn manual_decode(data: &Vec<u8>, index: &mut usize) -> (r: Option<Route>)
        requires
            *old(index) <= data@.len(),
        ensures
            r matches Some(out) ==> {
                &&& *old(index) <= *final(index) <= data@.len()
                &&& *final(index) == *old(index) + out.wire_bytes().len()
                &&& data@.subrange(*old(index) as int, *final(index) as int) == out.wire_bytes()
            },
            forall|rt: Route|
                starts_with(#[trigger] rt.wire_bytes(), data@.subrange(*old(index) as int, data@.len() as int))
                    ==> (r matches Some(out) && out@ == rt@
                        && *final(index) == *old(index) + rt.wire_bytes().len()),
    {
        let ghost i0 = *index;
        let ghost tail = data@.subrange(i0 as int, data@.len() as int);
        let dlen = data.len();
        let count64 = match read_variable_length_integer(data, index) {
            Some(v) => v,
            None => {
                proof {
                    assert forall|rt: Route| !starts_with(#[trigger] rt.wire_bytes(), data@.subrange(i0 as int, data@.len() as int)) by {
                        if starts_with(rt.wire_bytes(), tail) {
                            lemma_route_wire_decomposition(rt, tail);
                            lemma_addresses_wire_len(rt.inner@);
                            assert(rt.wire_bytes().len() <= tail.len());
                            assert(tail.len() <= dlen);
                            assert(2 * rt.inner@.len() <= dlen);
                            assert(rt.inner@.len() <= dlen <= usize::MAX <= u64::MAX);
                        }
                    }
                }
                return None;
            },
        };
        if count64 > usize::MAX as u64 {
            proof {
                assert forall|rt: Route| !starts_with(#[trigger] rt.wire_bytes(), data@.subrange(i0 as int, data@.len() as int)) by {
                    if starts_with(rt.wire_bytes(), tail) {
                        lemma_route_wire_decomposition(rt, tail);
                        lemma_addresses_wire_len(rt.inner@);
                        assert(rt.wire_bytes().len() <= tail.len());
                        assert(tail.len() <= dlen);
                        assert(2 * rt.inner@.len() <= dlen);
                        assert(rt.inner@.len() <= dlen <= usize::MAX);
                    }
                }
            }
            return None;
        }
        let count = count64 as usize;
        let ghost mid = *index;
        match decode_addresses(data, index, count) {
            Some(v) => {
                let out = Route { inner: v };
                proof {
                    // The bytes consumed are exactly this route's wire
                    // form: the canonical hop count, then the hops.
                    lemma_varint_canonical(tail);
                    let clen = mid - i0;
                    let cb = varint_bytes(count64 as nat);
                    assert(tail.subrange(0, clen as int) == cb);
                    assert forall|y: int| 0 <= y < clen implies data@[i0 + y] == cb[y] by {
                        assert(tail[y] == tail.subrange(0, clen as int)[y]);
                    }
                    assert(out.wire_bytes() =~= cb + addresses_wire_bytes(v@));
                    assert forall|y: int| 0 <= y < *index - i0
                        implies data@.subrange(i0 as int, *index as int)[y] == out.wire_bytes()[y] by {
                        if y < clen {
                            assert(data@[i0 + y] == cb[y]);
                        } else {
                            assert(data@.subrange(mid as int, *index as int)[y - clen]
                                == addresses_wire_bytes(v@)[y - clen]);
                        }
                    }
                    assert(data@.subrange(i0 as int, *index as int) =~= out.wire_bytes());
                    assert forall|rt: Route| starts_with(#[trigger] rt.wire_bytes(), data@.subrange(i0 as int, data@.len() as int))
                        implies out@ == rt@ && *index == i0 + rt.wire_bytes().len() by {
                        lemma_route_wire_decomposition(rt, tail);
                        let vlen = varint_bytes(rt.inner@.len());
                        assert(rt.inner@.len() == count);
                        assert(data@.subrange(mid as int, data@.len() as int)
                            =~= tail.subrange(vlen.len() as int, tail.len() as int));
                        assert(starts_with(addresses_wire_bytes(rt.inner@), data@.subrange(mid as int, data@.len() as int)));
                        assert(hops_of(v@) == hops_of(rt.inner@));
                        assert(out@ =~= rt@);
                    }
                }
                Some(out)
            },
            None => {
                proof {
                    assert forall|rt: Route| !starts_with(#[trigger] rt.wire_bytes(), data@.subrange(i0 as int, data@.len() as int)) by {
                        if starts_with(rt.wire_bytes(), tail) {
                            lemma_route_wire_decomposition(rt, tail);
                            let vlen = varint_bytes(rt.inner@.len());
                            assert(rt.inner@.len() == count);
                            assert(data@.subrange(mid as int, data@.len() as int)
                                =~= tail.subrange(vlen.len() as int, tail.len() as int));
                            assert(starts_with(addresses_wire_bytes(rt.inner@), data@.subrange(mid as int, data@.len() as int)));
                        }
                    }
                }
                None
            },
        }
    }
}

/// How a wire-encoded route at the front of `tail` breaks apart: the hop
/// count, then the hops one after another.
proof fn lemma_route_wire_decomposition(rt: Route, tail: Seq<u8>)
    requires
        starts_with(rt.wire_bytes(), tail),
    ensures
        varint_decode(tail) == Some((rt.inner@.len() as nat, varint_bytes(rt.inner@.len()).len() as int)),
        starts_with(
            addresses_wire_bytes(rt.inner@),
            tail.subrange(varint_bytes(rt.inner@.len()).len() as int, tail.len() as int),
        ),
        rt.wire_bytes().len() == varint_bytes(rt.inner@.len()).len() + addresses_wire_bytes(rt.inner@).len(),
{
    let vlen = varint_bytes(rt.inner@.len());
    let body = addresses_wire_bytes(rt.inner@);
    lemma_starts_with_concat(vlen, body, tail);
    let rest = tail.subrange(vlen.len() as int, tail.len() as int);
    assert(tail.subrange(0, vlen.len() as int) =~= vlen);
    assert(tail =~= vlen + rest);
    lemma_varint_round_trip(rt.inner@.len(), rest);
}

/// Read `count` wire-encoded addresses from `data` at `index`.
fn decode_addresses(data: &Vec<u8>, index: &mut usize, count: usize) -> (r: Option<VecDeque<Address>>)
    requires
        *old(index) <= data@.len(),
    ensures
        r matches Some(out) ==> {
            &&& *old(index) <= *final(index) <= data@.len()
            &&& out@.len() == count
            &&& *final(index) == *old(index) + addresses_wire_bytes(out@).len()
            &&& data@.subrange(*old(index) as int, *final(index) as int) == addresses_wire_bytes(out@)
        },
        forall|s: Seq<Address>|
            s.len() == count && starts_with(
                #[trigger] addresses_wire_bytes(s),
                data@.subrange(*old(index) as int, data@.len() as int),
            ) ==> (r matches Some(out) && hops_of(out@) == hops_of(s)
                && *final(index) == *old(index) + addresses_wire_bytes(s).len()),
    decreases count,
{
    let ghost i0 = *index;
    let ghost tail = data@.subrange(i0 as int, data@.len() as int);
    if count == 0 {
        let out: VecDeque<Address> = VecDeque::new();
        proof {
            assert(addresses_wire_bytes(out@) =~= Seq::<u8>::empty());
            assert(data@.subrange(i0 as int, i0 as int) =~= Seq::<u8>::empty());
            assert forall|s: Seq<Address>|
                s.len() == 0 && starts_with(#[trigger] addresses_wire_bytes(s), data@.subrange(i0 as int, data@.len() as int))
                    implies hops_of(out@) == hops_of(s) && addresses_wire_bytes(s).len() == 0 by {
                assert(hops_of(out@) =~= hops_of(s));
            }
        }
        return Some(out);
    }
    match Address::manual_decode(data, index) {
        None => {
            proof {
                assert forall|s: Seq<Address>| s.len() != count || !starts_with(#[trigger] addresses_wire_bytes(s), data@.subrange(i0 as int, data@.len() as int)) by {
                    if s.len() == count && starts_with(addresses_wire_bytes(s), tail) {
                        lemma_starts_with_concat(s[0].wire_bytes(), addresses_wire_bytes(s.drop_first()), tail);
                    }
                }
            }
            None
        },
        Some(a) => {
            let ghost mid = *index;
            let ghost tail2 = data@.subrange(mid as int, data@.len() as int);
            match decode_addresses(data, index, count - 1) {
                None => {
                    proof {
                        assert forall|s: Seq<Address>| s.len() != count || !starts_with(#[trigger] addresses_wire_bytes(s), data@.subrange(i0 as int, data@.len() as int)) by {
                            if s.len() == count && starts_with(addresses_wire_bytes(s), tail) {
                                lemma_starts_with_concat(s[0].wire_bytes(), addresses_wire_bytes(s.drop_first()), tail);
                                assert(tail.subrange(s[0].wire_bytes().len() as int, tail.len() as int) =~= tail2);
                            }
                        }
                    }
                    None
                },
                Some(mut v) => {
                    let ghost v0 = v@;
                    v.push_front(a);
                    let ghost vafter = v@;
                    proof {
                        // The consumed window is the address's wire form
                        // followed by the remaining addresses' forms.
                        assert(vafter.drop_first() =~= v0);
                        assert(vafter[0] == a);
                        assert(addresses_wire_bytes(vafter) == a.wire_bytes() + addresses_wire_bytes(v0));
                        assert forall|y: int| 0 <= y < *index - i0
                            implies data@.subrange(i0 as int, *index as int)[y] == addresses_wire_bytes(vafter)[y] by {
                            if y < mid - i0 {
                                assert(data@.subrange(i0 as int, mid as int)[y] == a.wire_bytes()[y]);
                            } else {
                                assert(data@.subrange(mid as int, *index as int)[y - (mid - i0)]
                                    == addresses_wire_bytes(v0)[y - (mid - i0)]);
                            }
                        }
                        assert(data@.subrange(i0 as int, *index as int) =~= addresses_wire_bytes(vafter));
                    }
                    proof {
                        assert forall|s: Seq<Address>|
                            s.len() == count && starts_with(#[trigger] addresses_wire_bytes(s), data@.subrange(i0 as int, data@.len() as int))
                                implies hops_of(vafter) == hops_of(s)
                                    && *index == i0 + addresses_wire_bytes(s).len() by {
                            lemma_starts_with_concat(s[0].wire_bytes(), addresses_wire_bytes(s.drop_first()), tail);
                            assert(tail.subrange(s[0].wire_bytes().len() as int, tail.len() as int) =~= tail2);
                            assert(a@ == s[0]@);
                            assert(hops_of(v0) == hops_of(s.drop_first()));
                            assert forall|k: int| 0 <= k < vafter.len() implies hops_of(vafter)[k] == hops_of(s)[k] by {
                                if k == 0 {
                                } else {
                                    assert(vafter[k] == v0[k - 1]);
                                    assert(hops_of(v0)[k - 1] == hops_of(s.drop_first())[k - 1]);
                                }
                            }
                            assert(hops_of(vafter) =~= hops_of(s));
                        }
                    }
                    Some(v)
                },
            }
        },
    }
}

impl Default for Route {
    /// The empty route.
    fn default() -> (r: Self)
        ensures
            r@ == Seq::<AddressView>::empty(),
    {
        Route::new().build()
    }
}

impl RouteBuilder {
    /// Create an empty builder.
    pub fn new() -> (r: Self)
        ensures
            r@ == Seq::<AddressView>::empty(),
    {
        RouteBuilder { inner: VecDeque::new() }
    }

    /// Push a new address to the back of the route.
    pub fn append(self, addr: Address) -> (r: Self)
        ensures
            r@ == self@.push(addr@),
    {
        let mut inner = self.inner;
        inner.push_back(addr);
        let r = RouteBuilder { inner };
        proof {
            assert(r@ =~= self@.push(addr@));
        }
        r
    }

    /// Push an address with an explicit transport type to the back of the
    /// route.
    pub fn append_t(self, ty: TransportType, addr: &str) -> (r: Self)
        ensures
            r@.len() == self@.len() + 1,
            r@.subrange(0, self@.len() as int) == self@,
            r@[self@.len() as int] == (AddressView { transport: ty, name: addr@ }),
    {
        let r = self.append(Address::new_with_string(ty, addr));
        proof {
            assert(r@.subrange(0, r@.len() - 1) =~= r@.drop_last());
        }
        r
    }

    /// Push a new address to the front of the route.
    pub fn prepend(self, addr: Address) -> (r: Self)
        ensures
            r@ == seq![addr@] + self@,
    {
        let mut inner = self.inner;
        inner.push_front(addr);
        let r = RouteBuilder { inner };
        proof {
            assert(r@ =~= seq![addr@] + self@);
        }
        r
    }

    /// Prepend a full route to an existing route, keeping its hop order.
    pub fn prepend_route(self, route: Route) -> (r: Self)
        ensures
            r@ == route@ + self@,
    {
        let mut hops = route.inner;
        let mut inner = self.inner;
        let ghost orig = hops_of(hops@);
        let ghost tail = hops_of(inner@);
        loop
            invariant
                hops_of(inner@).len() + hops_of(hops@).len() == orig.len() + tail.len(),
                hops_of(hops@) == orig.subrange(0, hops@.len() as int),
                hops_of(inner@) == orig.subrange(hops@.len() as int, orig.len() as int) + tail,
            ensures
                hops@.len() == 0,
                hops_of(inner@) == orig + tail,
            decreases hops@.len(),
        {
            let ghost h0 = hops@;
            match hops.pop_back() {
                Some(addr) => {
                    let ghost i0 = inner@;
                    proof {
                        assert(addr@ == hops_of(h0)[h0.len() - 1]);
                        assert(addr@ == orig[h0.len() - 1]);
                    }
                    inner.push_front(addr);
                    proof {
                        let rest = orig.subrange(hops@.len() as int, orig.len() as int) + tail;
                        assert forall|k: int| 0 <= k < inner@.len() implies hops_of(inner@)[k] == rest[k] by {
                            if k == 0 {
                                assert(inner@[0] == addr);
                            } else {
                                assert(inner@[k] == i0[k - 1]);
                                assert(hops_of(i0)[k - 1] == i0[k - 1]@);
                            }
                        }
                        assert(hops_of(hops@) =~= orig.subrange(0, hops@.len() as int));
                        assert(hops_of(inner@) =~= rest);
                    }
                },
                None => {
                    proof {
                        assert(hops_of(inner@) =~= orig + tail);
                    }
                    break;
                },
            }
        }
        RouteBuilder { inner }
    }

    /// Append a full route to an existing route.
    pub fn append_route(self, route: Route) -> (r: Self)
        ensures
            r@ == self@ + route@,
    {
        let mut inner = self.inner;
        let mut hops = route.inner;
        let ghost front = hops_of(inner@);
        let ghost added = hops_of(hops@);
        inner.append(&mut hops);
        let r = RouteBuilder { inner };
        proof {
            assert(r@ =~= front + added);
        }
        r
    }

    /// Replace the next address of the route with a new one, dropping the
    /// previous front hop if there was one.
    pub fn replace(self, addr: Address) -> (r: Self)
        ensures
            self@.len() > 0 ==> r@ == seq![addr@] + self@.subrange(1, self@.len() as int),
            self@.len() == 0 ==> r@ == seq![addr@],
    {
        let mut inner = self.inner;
        let _ = inner.pop_front();
        inner.push_front(addr);
        let r = RouteBuilder { inner };
        proof {
            assert(r@ =~= if self@.len() > 0 { seq![addr@] + self@.subrange(1, self@.len() as int) } else { seq![addr@] });
        }
        r
    }

    /// Pop the front address from the route.
    pub fn pop_front(self) -> (r: Self)
        ensures
            self@.len() > 0 ==> r@ == self@.subrange(1, self@.len() as int),
            self@.len() == 0 ==> r@ == self@,
    {
        let mut inner = self.inner;
        let _ = inner.pop_front();
        let r = RouteBuilder { inner };
        proof {
            assert(r@ =~= if self@.len() > 0 { self@.subrange(1, self@.len() as int) } else { self@ });
        }
        r
    }

    /// Pop the back address from the route.
    pub fn pop_back(self) -> (r: Self)
        ensures
            self@.len() > 0 ==> r@ == self@.subrange(0, self@.len() - 1),
            self@.len() == 0 ==> r@ == self@,
    {
        let mut inner = self.inner;
        let _ = inner.pop_back();
        let r = RouteBuilder { inner };
        proof {
            assert(r@ =~= if self@.len() > 0 { self@.subrange(0, self@.len() - 1) } else { self@ });
        }
        r
    }

    /// Builds the route.
    pub fn build(self) -> (r: Route)
        ensures
            r@ == self@,
    {
        Route { inner: self.inner }
    }
}

impl Default for RouteBuilder {
    /// The empty builder.
    fn default() -> (r: Self)
        ensures
            r@ == Seq::<AddressView>::empty(),
    {
        RouteBuilder::new()
    }
}

} // verus!
