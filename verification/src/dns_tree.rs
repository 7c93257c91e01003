//! The Kinetic DNS tree protocol (`kintree`) for discovering bootstrap peer
//! addresses through DNS TXT records: how the records of the root and of each
//! branch are read, and in which order branches are visited, within a budget of
//! lookups and addresses.

use vstd::prelude::*;
use vstd::string::StrSliceExecFns;
use vstd::string::StringExecFns;
use vstd::string::StringSliceAdditionalSpecFns;
use vstd::utf8::{decode_utf8, encode_utf8_decode_utf8, valid_utf8};

use crate::keyed::string_eq_str;
use crate::p2p::{canonical_multiaddr, multiaddr_display, utf8_text};
use crate::text::{chars_of, starts_with, str_starts_with};
use crate::types::strings_view;

verus! {

broadcast use vstd::string::group_string_axioms;

/// The most branch lookups one resolution makes.
pub const MAX_LOOKUPS: u32 = 20;

/// The number of addresses at which a resolution stops visiting branches.
pub const MAX_ADDRS: usize = 50;

/// Unicode `White_Space`, the property by which `str::split_whitespace` splits.
pub open spec fn is_white_space(c: char) -> bool {
    ||| '\u{9}' <= c <= '\u{d}'
    ||| c == ' '
    ||| c == '\u{85}'
    ||| c == '\u{a0}'
    ||| c == '\u{1680}'
    ||| '\u{2000}' <= c <= '\u{200a}'
    ||| c == '\u{2028}'
    ||| c == '\u{2029}'
    ||| c == '\u{202f}'
    ||| c == '\u{205f}'
    ||| c == '\u{3000}'
}

/// Whether a character is Unicode white space.
fn white_space(c: char) -> (r: bool)
    ensures
        r == is_white_space(c),
{
    ('\u{9}' <= c && c <= '\u{d}') || c == ' ' || c == '\u{85}' || c == '\u{a0}' || c == '\u{1680}'
        || ('\u{2000}' <= c && c <= '\u{200a}') || c == '\u{2028}' || c == '\u{2029}' || c
        == '\u{202f}' || c == '\u{205f}' || c == '\u{3000}'
}

/// The first position at or after `i` where `p` occurs in `s`, or -1.
pub open spec fn find_from(s: Seq<char>, p: Seq<char>, i: int) -> int
    decreases s.len() + 1 - i,
{
    if i < 0 || i > s.len() || i + p.len() > s.len() {
        -1
    } else if s.subrange(i, i + p.len()) == p {
        i
    } else {
        find_from(s, p, i + 1)
    }
}

/// The number of leading white-space characters of `s`.
pub open spec fn leading_white(s: Seq<char>) -> int
    decreases s.len(),
{
    if s.len() > 0 && is_white_space(s[0]) {
        1 + leading_white(s.drop_first())
    } else {
        0
    }
}

/// The number of leading characters of `s` that are not white space.
pub open spec fn leading_word(s: Seq<char>) -> int
    decreases s.len(),
{
    if s.len() > 0 && !is_white_space(s[0]) {
        1 + leading_word(s.drop_first())
    } else {
        0
    }
}

/// The first white-space-separated word of `s`, or `s` itself where it has none.
pub open spec fn first_word_or_all(s: Seq<char>) -> Seq<char> {
    let rest = s.skip(leading_white(s));
    if rest.len() == 0 {
        s
    } else {
        rest.take(leading_word(rest))
    }
}

/// The separator before the root hash in a root record.
pub open spec fn hash_marker() -> Seq<char> {
    " e="@
}

/// The root hash that a root record names: the first word of what stands
/// between its first and second ` e=`; none where it has no ` e=`.
pub open spec fn root_hash_of(t: Seq<char>) -> Option<Seq<char>> {
    let i = find_from(t, hash_marker(), 0);
    if i < 0 {
        None
    } else {
        let after = t.skip(i + 3);
        let j = find_from(after, hash_marker(), 0);
        let part = if j < 0 {
            after
        } else {
            after.take(j)
        };
        Some(first_word_or_all(part))
    }
}

/// The text of a TXT string, where it is valid UTF-8.
pub open spec fn txt_text(raw: Seq<u8>) -> Option<Seq<char>> {
    if valid_utf8(raw) {
        Some(decode_utf8(raw))
    } else {
        None
    }
}

/// A TXT string of the domain itself: a root record names the root hash (the
/// last one found wins); a flat `/ip4/` or `/ip6/` address that parses is
/// collected as a fallback; anything else is ignored.
pub open spec fn root_record(root: Option<Seq<char>>, addrs: Seq<Seq<char>>, raw: Seq<u8>) -> (
    Option<Seq<char>>,
    Seq<Seq<char>>,
) {
    match txt_text(raw) {
        None => (root, addrs),
        Some(t) => if starts_with(t, "kintree-root:v1"@) {
            match root_hash_of(t) {
                Some(h) => (Some(h), addrs),
                None => (root, addrs),
            }
        } else if starts_with(t, "/ip4/"@) || starts_with(t, "/ip6/"@) {
            match multiaddr_display(t) {
                Some(a) => (root, addrs.push(a)),
                None => (root, addrs),
            }
        } else {
            (root, addrs)
        },
    }
}

/// The TXT strings of the domain itself, read in order: the root hash found,
/// if any, and the flat addresses, in order.
pub open spec fn root_records(root: Option<Seq<char>>, addrs: Seq<Seq<char>>, raws: Seq<Seq<u8>>) -> (
    Option<Seq<char>>,
    Seq<Seq<char>>,
)
    decreases raws.len(),
{
    if raws.len() == 0 {
        (root, addrs)
    } else {
        let (r, a) = root_records(root, addrs, raws.drop_last());
        root_record(r, a, raws.last())
    }
}

/// `s` with every leading copy of `p` removed; `s` itself when `p` is empty.
pub open spec fn trim_start_all(s: Seq<char>, p: Seq<char>) -> Seq<char>
    decreases s.len(),
{
    if p.len() > 0 && starts_with(s, p) {
        trim_start_all(s.skip(p.len() as int), p)
    } else {
        s
    }
}

/// The pieces of `s` between the occurrences of `c`, in order (one piece where
/// `c` does not occur).
pub open spec fn split_pieces(s: Seq<char>, c: char) -> Seq<Seq<char>>
    decreases s.len(),
{
    let i = crate::proxy::first_index_of(s, c);
    if i < 0 || i >= s.len() {
        seq![s]
    } else {
        seq![s.take(i)] + split_pieces(s.skip(i + 1), c)
    }
}

/// The non-empty pieces of a list, in order.
pub open spec fn non_empty(ps: Seq<Seq<char>>) -> Seq<Seq<char>>
    decreases ps.len(),
{
    if ps.len() == 0 {
        Seq::empty()
    } else if ps[0].len() == 0 {
        non_empty(ps.drop_first())
    } else {
        seq![ps[0]] + non_empty(ps.drop_first())
    }
}

/// A TXT string of a branch: a branch record adds the non-empty hashes of its
/// comma-separated list to the branches to visit, in order; a leaf record's
/// address is collected where it parses; anything else is ignored.
pub open spec fn branch_record(pending: Seq<Seq<char>>, addrs: Seq<Seq<char>>, raw: Seq<u8>) -> (
    Seq<Seq<char>>,
    Seq<Seq<char>>,
) {
    match txt_text(raw) {
        None => (pending, addrs),
        Some(t) => if starts_with(t, "kintree-branch:"@) {
            (pending + non_empty(split_pieces(trim_start_all(t, "kintree-branch:"@), ',')), addrs)
        } else if starts_with(t, "kintree-leaf:"@) {
            match multiaddr_display(trim_start_all(t, "kintree-leaf:"@)) {
                Some(a) => (pending, addrs.push(a)),
                None => (pending, addrs),
            }
        } else {
            (pending, addrs)
        },
    }
}

/// The TXT strings of a branch, read in order.
pub open spec fn branch_records(pending: Seq<Seq<char>>, addrs: Seq<Seq<char>>, raws: Seq<Seq<u8>>) -> (
    Seq<Seq<char>>,
    Seq<Seq<char>>,
)
    decreases raws.len(),
{
    if raws.len() == 0 {
        (pending, addrs)
    } else {
        let (p, a) = branch_records(pending, addrs, raws.drop_last());
        branch_record(p, a, raws.last())
    }
}

/// Whether `p` occurs in `s` at position `i`.
fn occurs_at(s: &Vec<char>, p: &Vec<char>, i: usize) -> (r: bool)
    requires
        i + p.len() <= s.len(),
    ensures
        r == (s@.subrange(i as int, i + p.len()) == p@),
{
    let mut k: usize = 0;
    while k < p.len()
        invariant
            i + p.len() <= s.len(),
            k <= p.len(),
            forall|q: int| 0 <= q < k ==> s@[i + q] == p@[q],
        decreases p.len() - k,
    {
        if s[i + k] != p[k] {
            assert(s@.subrange(i as int, i + p.len())[k as int] != p@[k as int]);
            return false;
        }
        k = k + 1;
    }
    assert(s@.subrange(i as int, i + p.len()) =~= p@);
    true
}

/// The first position at or after `from` where `p` occurs in `s`.
fn find_in(s: &Vec<char>, p: &Vec<char>, from: usize) -> (r: Option<usize>)
    requires
        from <= s.len(),
        p.len() > 0,
    ensures
        match r {
            Some(i) => find_from(s@, p@, from as int) == i && i + p.len() <= s.len(),
            None => find_from(s@, p@, from as int) == -1,
        },
{
    let mut i = from;
    while p.len() <= s.len() - i
        invariant
            from <= i <= s.len(),
            p.len() > 0,
            find_from(s@, p@, i as int) == find_from(s@, p@, from as int),
        decreases s.len() - i,
    {
        if occurs_at(s, p, i) {
            return Some(i);
        }
        i = i + 1;
    }
    None
}

/// `leading_white` counts exactly the leading run of white space.
proof fn lemma_leading_white(s: Seq<char>, n: int)
    requires
        0 <= n <= s.len(),
        forall|j: int| 0 <= j < n ==> is_white_space(s[j]),
        n == s.len() || !is_white_space(s[n]),
    ensures
        leading_white(s) == n,
    decreases n,
{
    if n > 0 {
        lemma_leading_white(s.drop_first(), n - 1);
    }
}

/// `leading_word` counts exactly the leading run of other characters.
proof fn lemma_leading_word(s: Seq<char>, n: int)
    requires
        0 <= n <= s.len(),
        forall|j: int| 0 <= j < n ==> !is_white_space(s[j]),
        n == s.len() || is_white_space(s[n]),
    ensures
        leading_word(s) == n,
    decreases n,
{
    if n > 0 {
        lemma_leading_word(s.drop_first(), n - 1);
    }
}

/// The first white-space-separated word of a text, or the text itself where it has none.
fn first_word(t: &str) -> (r: &str)
    ensures
        r@ == first_word_or_all(t@),
{
    let v = chars_of(t);
    let mut n: usize = 0;
    while n < v.len() && white_space(v[n])
        invariant
            v@ == t@,
            n <= v.len(),
            forall|j: int| 0 <= j < n ==> is_white_space(v@[j]),
        decreases v.len() - n,
    {
        n = n + 1;
    }
    proof {
        lemma_leading_white(t@, n as int);
    }
    if n == v.len() {
        return t;
    }
    let mut m: usize = n;
    while m < v.len() && !white_space(v[m])
        invariant
            v@ == t@,
            n <= m <= v.len(),
            forall|j: int| n <= j < m ==> !is_white_space(v@[j]),
        decreases v.len() - m,
    {
        m = m + 1;
    }
    proof {
        let rest = t@.skip(n as int);
        assert forall|j: int| 0 <= j < m - n implies !is_white_space(rest[j]) by {
            assert(rest[j] == t@[n + j]);
        }
        if m < v.len() {
            assert(rest[m - n] == t@[m as int]);
        }
        lemma_leading_word(rest, m - n);
        assert(rest.take(m - n) =~= t@.subrange(n as int, m as int));
    }
    t.substring_char(n, m)
}

/// The root hash that a root record's text names.
fn root_hash(t: &str) -> (r: Option<String>)
    ensures
        match r {
            Some(h) => root_hash_of(t@) == Some(h@),
            None => root_hash_of(t@) is None,
        },
{
    let marker = " e=";
    let v = chars_of(t);
    let pm = chars_of(marker);
    proof {
        reveal_strlit(" e=");
    }
    let i = match find_in(&v, &pm, 0) {
        None => {
            return None;
        },
        Some(i) => i,
    };
    let after = t.substring_char(i + 3, v.len());
    assert(after@ =~= t@.skip(i + 3));
    let av = chars_of(after);
    let part = match find_in(&av, &pm, 0) {
        None => after,
        Some(j) => {
            assert(after@.subrange(0, j as int) =~= after@.take(j as int));
            after.substring_char(0, j)
        },
    };
    Some(String::from_str(first_word(part)))
}

/// A text without every leading copy of `p`.
fn trim_prefix_all<'a>(t: &'a str, p: &str) -> (r: &'a str)
    ensures
        r@ == trim_start_all(t@, p@),
{
    let pl = p.unicode_len();
    if pl == 0 {
        return t;
    }
    let mut cur = t;
    while str_starts_with(cur, p)
        invariant
            pl == p@.len(),
            pl > 0,
            trim_start_all(cur@, p@) == trim_start_all(t@, p@),
        decreases cur@.len(),
    {
        let n = cur.unicode_len();
        let next = cur.substring_char(pl, n);
        assert(next@ =~= cur@.skip(p@.len() as int));
        cur = next;
    }
    cur
}

/// Appends to a list the non-empty comma-separated pieces of a text, in order.
fn push_pieces(out: &mut Vec<String>, t: &str)
    ensures
        strings_view(final(out)@) == strings_view(old(out)@) + non_empty(split_pieces(t@, ',')),
{
    let v = chars_of(t);
    let mut start: usize = 0;
    assert(t@.skip(0) =~= t@);
    loop
        invariant
            v@ == t@,
            start <= v.len(),
            strings_view(out@) + non_empty(split_pieces(t@.skip(start as int), ',')) == strings_view(
                old(out)@,
            ) + non_empty(split_pieces(t@, ',')),
        decreases v.len() - start,
    {
        let mut j = start;
        while j < v.len() && v[j] != ','
            invariant
                v@ == t@,
                start <= j <= v.len(),
                forall|q: int| start <= q < j ==> v@[q] != ',',
            decreases v.len() - j,
        {
            j = j + 1;
        }
        let ghost rest = t@.skip(start as int);
        proof {
            assert forall|q: int| 0 <= q < j - start implies rest[q] != ',' by {
                assert(rest[q] == t@[start + q]);
            }
            if j < v.len() {
                assert(rest[j - start] == ',');
            }
            crate::proxy::lemma_first_index_of_unique(rest, ',', j - start);
        }
        let piece = t.substring_char(start, j);
        assert(piece@ =~= rest.take(j - start));
        let ghost before = strings_view(out@);
        if j > start {
            out.push(String::from_str(piece));
            assert(strings_view(out@) =~= before.push(piece@));
        }
        if j == v.len() {
            proof {
                assert(split_pieces(rest, ',') == seq![rest]);
                assert(rest.take(j - start) =~= rest);
                if j > start {
                    assert(seq![rest].drop_first() =~= Seq::<Seq<char>>::empty());
                    assert(non_empty(Seq::<Seq<char>>::empty()) == Seq::<Seq<char>>::empty());
                    assert(non_empty(seq![rest]) == seq![seq![rest][0]] + non_empty(seq![rest].drop_first()));
                    assert(non_empty(seq![rest]) =~= seq![rest]);
                    assert(strings_view(out@) =~= before + non_empty(seq![rest]));
                } else {
                    assert(rest.len() == 0);
                    assert(seq![rest].drop_first() =~= Seq::<Seq<char>>::empty());
                    assert(non_empty(Seq::<Seq<char>>::empty()) == Seq::<Seq<char>>::empty());
                    assert(non_empty(seq![rest]) == non_empty(seq![rest].drop_first()));
                    assert(non_empty(seq![rest]) =~= Seq::<Seq<char>>::empty());
                    assert(strings_view(out@) =~= before + non_empty(seq![rest]));
                }
            }
            return;
        }
        proof {
            let tail = rest.skip(j - start + 1);
            assert(tail =~= t@.skip(j + 1));
            let ps = seq![rest.take(j - start)] + split_pieces(tail, ',');
            assert(split_pieces(rest, ',') == ps);
            assert(ps[0] == rest.take(j - start));
            assert(ps.drop_first() =~= split_pieces(tail, ','));
            if j > start {
                assert(non_empty(ps) == seq![ps[0]] + non_empty(ps.drop_first()));
                assert(strings_view(out@) + non_empty(split_pieces(tail, ',')) =~= before
                    + non_empty(ps));
            } else {
                assert(non_empty(ps) == non_empty(ps.drop_first()));
            }
        }
        start = j + 1;
    }
}

/// The next branch a resolution looks up: branches are taken from the top of
/// the stack; the walk ends when the stack is empty or when the lookup or the
/// address budget is spent; a branch already looked up is passed over.
/// Yields the remaining stack, the looked-up branches, the lookup count, whether
/// the walk has ended, and the branch to look up.
pub open spec fn walk_next(
    pending: Seq<Seq<char>>,
    visited: Seq<Seq<char>>,
    lookups: int,
    addr_count: int,
) -> (Seq<Seq<char>>, Seq<Seq<char>>, int, bool, Option<Seq<char>>)
    decreases pending.len(),
{
    if pending.len() == 0 {
        (pending, visited, lookups, true, None)
    } else {
        let b = pending.last();
        let p = pending.drop_last();
        if lookups >= MAX_LOOKUPS || addr_count >= MAX_ADDRS {
            (p, visited, lookups, true, None)
        } else if visited.contains(b) {
            walk_next(p, visited, lookups, addr_count)
        } else {
            (p, visited.push(b), lookups + 1, false, Some(b))
        }
    }
}

/// A walk step that yields a branch spends one lookup of the budget, and only
/// while the budget lasts; the branch was not looked up before and is recorded
/// as looked up.
pub proof fn law_walk_step_within_budget(
    pending: Seq<Seq<char>>,
    visited: Seq<Seq<char>>,
    lookups: int,
    addr_count: int,
)
    ensures
        ({
            let (p, v, l, d, b) = walk_next(pending, visited, lookups, addr_count);
            &&& b matches Some(h) ==> {
                &&& lookups < MAX_LOOKUPS
                &&& addr_count < MAX_ADDRS
                &&& l == lookups + 1
                &&& !visited.contains(h)
                &&& v == visited.push(h)
                &&& !d
            }
            &&& b is None ==> d && l == lookups && v == visited
            &&& p.len() < pending.len() || (pending.len() == 0 && p == pending)
        }),
    decreases pending.len(),
{
    if pending.len() > 0 {
        law_walk_step_within_budget(pending.drop_last(), visited, lookups, addr_count);
    }
}

/// The pieces kept by `non_empty` are all non-empty.
proof fn lemma_non_empty(ps: Seq<Seq<char>>)
    ensures
        forall|i: int| 0 <= i < non_empty(ps).len() ==> (#[trigger] non_empty(ps)[i]).len() > 0,
    decreases ps.len(),
{
    if ps.len() > 0 {
        lemma_non_empty(ps.drop_first());
        let rest = non_empty(ps.drop_first());
        if ps[0].len() > 0 {
            assert(non_empty(ps) == seq![ps[0]] + rest);
            assert forall|i: int| 0 <= i < non_empty(ps).len() implies (#[trigger] non_empty(ps)[i]).len() > 0 by {
                if i > 0 {
                    assert(non_empty(ps)[i] == rest[i - 1]);
                } else {
                    assert(non_empty(ps)[0] == ps[0]);
                }
            }
        } else {
            assert(non_empty(ps) == rest);
        }
    }
}

/// Reading the TXT strings of a branch never drops a branch still to visit nor
/// an address already collected: both lists only grow at their ends, and every
/// branch added is a non-empty hash.
pub proof fn law_branch_keeps_pending(pending: Seq<Seq<char>>, addrs: Seq<Seq<char>>, raws: Seq<Seq<u8>>)
    ensures
        ({
            let (p, a) = branch_records(pending, addrs, raws);
            &&& pending.len() <= p.len()
            &&& p.subrange(0, pending.len() as int) == pending
            &&& forall|i: int| pending.len() <= i < p.len() ==> (#[trigger] p[i]).len() > 0
            &&& addrs.len() <= a.len()
            &&& a.subrange(0, addrs.len() as int) == addrs
        }),
    decreases raws.len(),
{
    if raws.len() > 0 {
        law_branch_keeps_pending(pending, addrs, raws.drop_last());
        let (p0, a0) = branch_records(pending, addrs, raws.drop_last());
        let (p, a) = branch_records(pending, addrs, raws);
        assert(p0.subrange(0, pending.len() as int) == pending);
        assert(a0.subrange(0, addrs.len() as int) == addrs);
        match txt_text(raws.last()) {
            None => {},
            Some(t) => {
                if starts_with(t, "kintree-branch:"@) {
                    let added = non_empty(split_pieces(trim_start_all(t, "kintree-branch:"@), ','));
                    lemma_non_empty(split_pieces(trim_start_all(t, "kintree-branch:"@), ','));
                    assert(p == p0 + added);
                    assert(p.subrange(0, pending.len() as int) =~= p0.subrange(0, pending.len() as int));
                    assert forall|i: int| pending.len() <= i < p.len() implies (#[trigger] p[i]).len() > 0 by {
                        if i >= p0.len() {
                            assert(p[i] == added[i - p0.len()]);
                        } else {
                            assert(p[i] == p0[i]);
                        }
                    }
                } else if starts_with(t, "kintree-leaf:"@) {
                    assert(a.subrange(0, addrs.len() as int) =~= a0.subrange(0, addrs.len() as int));
                }
            },
        }
    }
}

/// A resolution of a domain's DNS tree in progress.
#[derive(Debug)]
pub struct DnsTreeWalk {
    domain: String,
    addrs: Vec<String>,
    pending: Vec<String>,
    visited: Vec<String>,
    lookups: u32,
    done: bool,
}

impl DnsTreeWalk {
    /// The domain being resolved.
    pub closed spec fn domain(self) -> Seq<char> {
        self.domain@
    }

    /// The addresses collected so far, in order.
    pub closed spec fn addrs(self) -> Seq<Seq<char>> {
        strings_view(self.addrs@)
    }

    /// The branches still to visit; the last is visited first.
    pub closed spec fn pending(self) -> Seq<Seq<char>> {
        strings_view(self.pending@)
    }

    /// The branches looked up so far, in order.
    pub closed spec fn visited(self) -> Seq<Seq<char>> {
        strings_view(self.visited@)
    }

    /// The number of branch lookups made so far.
    pub closed spec fn lookups(self) -> int {
        self.lookups as int
    }

    /// Whether the walk has ended.
    pub closed spec fn is_done(self) -> bool {
        self.done
    }

    /// No branch is looked up twice, and the lookups stay within the budget.
    #[verifier::type_invariant]
    closed spec fn within_budget(self) -> bool {
        &&& self.lookups <= MAX_LOOKUPS
        &&& strings_view(self.visited@).no_duplicates()
    }

    /// A resolution of a domain that has read nothing yet.
    pub fn new(domain: String) -> (w: DnsTreeWalk)
        ensures
            w.domain() == domain@,
            w.addrs().len() == 0,
            w.pending().len() == 0,
            w.visited().len() == 0,
            w.lookups() == 0,
            !w.is_done(),
    {
        let w = DnsTreeWalk {
            domain,
            addrs: Vec::new(),
            pending: Vec::new(),
            visited: Vec::new(),
            lookups: 0,
            done: false,
        };
        assert(strings_view(w.visited@) =~= Seq::<Seq<char>>::empty());
        w
    }

    /// Reads the TXT strings of the domain itself, in order. Where a root record
    /// names a hash, the walk of the branches starts from it and the flat
    /// addresses are not used; where none does, the flat addresses are
    /// collected instead.
    pub fn absorb_root(&mut self, txts: &Vec<Vec<u8>>)
        ensures
            ({
                let (root, flat) = root_records(None, Seq::empty(), deep_bytes(txts@));
                &&& final(self).addrs() == match root {
                    Some(_) => old(self).addrs(),
                    None => old(self).addrs() + flat,
                }
                &&& final(self).pending() == match root {
                    Some(h) => old(self).pending().push(h),
                    None => old(self).pending(),
                }
            }),
            final(self).domain() == old(self).domain(),
            final(self).visited() == old(self).visited(),
            final(self).lookups() == old(self).lookups(),
            final(self).is_done() == old(self).is_done(),
    {
        proof {
            use_type_invariant(&*self);
        }
        let mut root: Option<String> = None;
        let mut flat: Vec<String> = Vec::new();
        for i in 0..txts.len()
            invariant
                ({
                    let (r, a) = root_records(None, Seq::empty(), deep_bytes(txts@.take(i as int)));
                    &&& strings_view(flat@) == a
                    &&& opt_string_view(root) == r
                }),
        {
            proof {
                assert(deep_bytes(txts@.take(i + 1)).drop_last() =~= deep_bytes(txts@.take(i as int)));
                assert(deep_bytes(txts@.take(i + 1)).last() == txts@[i as int]@);
            }
            match utf8_text(txts[i].as_slice()) {
                None => {},
                Some(t) => {
                    proof {
                        encode_utf8_decode_utf8(t@);
                    }
                    if str_starts_with(t, "kintree-root:v1") {
                        if let Some(h) = root_hash(t) {
                            root = Some(h);
                        }
                    } else if str_starts_with(t, "/ip4/") || str_starts_with(t, "/ip6/") {
                        if let Some(a) = canonical_multiaddr(t) {
                            let ghost before = strings_view(flat@);
                            flat.push(a);
                            assert(strings_view(flat@) =~= before.push(a@));
                        }
                    }
                },
            }
        }
        assert(txts@.take(txts@.len() as int) =~= txts@);
        match root {
            Some(h) => {
                let mut pending: Vec<String> = Vec::new();
                std::mem::swap(&mut pending, &mut self.pending);
                let ghost before = strings_view(pending@);
                pending.push(h);
                assert(strings_view(pending@) =~= before.push(h@));
                self.pending = pending;
            },
            None => {
                let mut addrs: Vec<String> = Vec::new();
                std::mem::swap(&mut addrs, &mut self.addrs);
                let ghost before = strings_view(addrs@);
                let ghost fv = strings_view(flat@);
                for j in 0..flat.len()
                    invariant
                        strings_view(addrs@) == before + fv.take(j as int),
                        fv == strings_view(flat@),
                {
                    let ghost cur = strings_view(addrs@);
                    addrs.push(flat[j].clone());
                    assert(strings_view(addrs@) =~= cur.push(flat@[j as int]@));
                    assert(fv.take(j + 1) =~= fv.take(j as int).push(fv[j as int]));
                }
                assert(fv.take(fv.len() as int) =~= fv);
                self.addrs = addrs;
            },
        }
    }

    /// The next branch to look up, as the domain to query (`<hash>.<domain>`),
    /// or `None` once the walk has ended.
    pub fn next_lookup(&mut self) -> (r: Option<String>)
        ensures
            final(self).domain() == old(self).domain(),
            final(self).addrs() == old(self).addrs(),
            old(self).is_done() ==> r is None && final(self).pending() == old(self).pending()
                && final(self).visited() == old(self).visited() && final(self).lookups() == old(
                self,
            ).lookups() && final(self).is_done(),
            !old(self).is_done() ==> ({
                let (p, v, l, d, b) = walk_next(
                    old(self).pending(),
                    old(self).visited(),
                    old(self).lookups(),
                    old(self).addrs().len() as int,
                );
                &&& final(self).pending() == p
                &&& final(self).visited() == v
                &&& final(self).lookups() == l
                &&& final(self).is_done() == d
                &&& match b {
                    Some(h) => r matches Some(q) && q@ == h + "."@ + old(self).domain(),
                    None => r is None,
                }
            }),
            final(self).lookups() <= MAX_LOOKUPS,
            final(self).visited().no_duplicates(),
    {
        proof {
            use_type_invariant(&*self);
        }
        if self.done {
            return None;
        }
        let ghost goal = walk_next(
            strings_view(self.pending@),
            strings_view(self.visited@),
            self.lookups as int,
            self.addrs@.len() as int,
        );
        let mut pending: Vec<String> = Vec::new();
        std::mem::swap(&mut pending, &mut self.pending);
        loop
            invariant
                self.domain == old(self).domain,
                self.addrs == old(self).addrs,
                self.visited == old(self).visited,
                self.lookups == old(self).lookups,
                !self.done,
                !old(self).done,
                goal == walk_next(
                    strings_view(old(self).pending@),
                    strings_view(old(self).visited@),
                    old(self).lookups as int,
                    old(self).addrs@.len() as int,
                ),
                self.lookups <= MAX_LOOKUPS,
                strings_view(self.visited@).no_duplicates(),
                walk_next(
                    strings_view(pending@),
                    strings_view(self.visited@),
                    self.lookups as int,
                    self.addrs@.len() as int,
                ) == goal,
            decreases pending@.len(),
        {
            let ghost pv = strings_view(pending@);
            let b = match pending.pop() {
                None => {
                    self.pending = pending;
                    self.done = true;
                    return None;
                },
                Some(b) => b,
            };
            proof {
                assert(strings_view(pending@) =~= pv.drop_last());
                assert(pv.last() == b@);
            }
            if self.lookups >= MAX_LOOKUPS || self.addrs.len() >= MAX_ADDRS {
                self.pending = pending;
                self.done = true;
                return None;
            }
            if list_has(&self.visited, b.as_str()) {
                continue;
            }
            let ghost vv = strings_view(self.visited@);
            let q = b.clone().concat(".").concat(self.domain.as_str());
            let mut visited: Vec<String> = Vec::new();
            std::mem::swap(&mut visited, &mut self.visited);
            visited.push(b);
            proof {
                assert(strings_view(visited@) =~= vv.push(pv.last()));
                assert forall|x: int, y: int|
                    0 <= x < strings_view(visited@).len() && 0 <= y < strings_view(visited@).len()
                        && x != y implies strings_view(visited@)[x] != strings_view(visited@)[y] by {
                    if x == vv.len() {
                        assert(vv[y] == strings_view(visited@)[y]);
                    }
                    if y == vv.len() {
                        assert(vv[x] == strings_view(visited@)[x]);
                    }
                }
            }
            self.pending = pending;
            self.visited = visited;
            self.lookups = self.lookups + 1;
            return Some(q);
        }
    }

    /// Reads the TXT strings of a looked-up branch, in order: branch lists add
    /// branches to visit, leaf addresses are collected.
    pub fn absorb_branch(&mut self, txts: &Vec<Vec<u8>>)
        ensures
            ({
                let (p, a) = branch_records(old(self).pending(), old(self).addrs(), deep_bytes(txts@));
                &&& final(self).pending() == p
                &&& final(self).addrs() == a
            }),
            final(self).domain() == old(self).domain(),
            final(self).visited() == old(self).visited(),
            final(self).lookups() == old(self).lookups(),
            final(self).is_done() == old(self).is_done(),
    {
        proof {
            use_type_invariant(&*self);
        }
        let mut addrs: Vec<String> = Vec::new();
        std::mem::swap(&mut addrs, &mut self.addrs);
        let mut pending: Vec<String> = Vec::new();
        std::mem::swap(&mut pending, &mut self.pending);
        for i in 0..txts.len()
            invariant
                ({
                    let (p, a) = branch_records(
                        old(self).pending(),
                        old(self).addrs(),
                        deep_bytes(txts@.take(i as int)),
                    );
                    &&& strings_view(pending@) == p
                    &&& strings_view(addrs@) == a
                }),
        {
            proof {
                assert(deep_bytes(txts@.take(i + 1)).drop_last() =~= deep_bytes(txts@.take(i as int)));
                assert(deep_bytes(txts@.take(i + 1)).last() == txts@[i as int]@);
            }
            match utf8_text(txts[i].as_slice()) {
                None => {},
                Some(t) => {
                    proof {
                        encode_utf8_decode_utf8(t@);
                    }
                    if str_starts_with(t, "kintree-branch:") {
                        let parts = trim_prefix_all(t, "kintree-branch:");
                        push_pieces(&mut pending, parts);
                    } else if str_starts_with(t, "kintree-leaf:") {
                        let ma = trim_prefix_all(t, "kintree-leaf:");
                        if let Some(a) = canonical_multiaddr(ma) {
                            let ghost before = strings_view(addrs@);
                            addrs.push(a);
                            assert(strings_view(addrs@) =~= before.push(a@));
                        }
                    }
                },
            }
        }
        assert(txts@.take(txts@.len() as int) =~= txts@);
        self.addrs = addrs;
        self.pending = pending;
    }

    /// The addresses collected, in order.
    pub fn addresses(&self) -> (r: &Vec<String>)
        ensures
            strings_view(r@) == self.addrs(),
    {
        &self.addrs
    }
}

/// The bytes of each TXT string of a list.
pub open spec fn deep_bytes(v: Seq<Vec<u8>>) -> Seq<Seq<u8>> {
    v.map_values(|b: Vec<u8>| b@)
}

/// The characters of an optional string.
pub open spec fn opt_string_view(s: Option<String>) -> Option<Seq<char>> {
    match s {
        Some(v) => Some(v@),
        None => None,
    }
}

/// Whether a list of strings holds one with the characters of `s`.
fn list_has(list: &Vec<String>, s: &str) -> (r: bool)
    ensures
        r == strings_view(list@).contains(s@),
{
    let mut i: usize = 0;
    while i < list.len()
        invariant
            i <= list@.len(),
            forall|j: int| 0 <= j < i ==> list@[j]@ != s@,
        decreases list@.len() - i,
    {
        if string_eq_str(&list[i], s) {
            assert(strings_view(list@)[i as int] == s@);
            return true;
        }
        i = i + 1;
    }
    proof {
        if strings_view(list@).contains(s@) {
            let j = choose|j: int| 0 <= j < list@.len() && strings_view(list@)[j] == s@;
            assert(list@[j]@ == s@);
        }
    }
    false
}

} // verus!
