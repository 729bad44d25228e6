//! Query texts and the inheritance resolver.
//!
//! A query text may declare on its first line that it inherits other
//! languages' texts of the same kind.  The resolver expands such directives
//! recursively: the declaring text stays first, each named parent's fully
//! resolved text follows, in the order the parents are listed.  A parent
//! whose text is absent makes the whole resolution fail.  Resolution depth
//! is bounded by the number of entries in the store, so a cyclic chain of
//! directives exhausts the bound and fails instead of recursing forever.

use vstd::prelude::*;
use crate::text::{chars_of, chars_eq};

verus! {

// ---------------------------------------------------------------------------
// The store: an immutable mapping from language name to raw query text.
// ---------------------------------------------------------------------------

/// The three independent query roles consumed by the external engine.
#[derive(Clone, Copy, Debug, PartialEq, Eq, Structural)]
pub enum QueryKind {
    Highlights,
    Injections,
    Locals,
}

/// An immutable mapping from language name to raw query source text, one
/// store per query kind.  The first entry for a name wins on lookup.
pub struct QueryStore {
    entries: Vec<(String, String)>,
}

/// First-match lookup of a name in the entry list.
pub open spec fn spec_lookup(store: Seq<(Seq<char>, Seq<char>)>, name: Seq<char>) -> Option<
    Seq<char>,
>
    decreases store.len(),
{
    if store.len() == 0 {
        None
    } else if store.first().0 == name {
        Some(store.first().1)
    } else {
        spec_lookup(store.drop_first(), name)
    }
}

impl QueryStore {
    /// The store as a sequence of (name, text) pairs of character sequences.
    pub closed spec fn view(&self) -> Seq<(Seq<char>, Seq<char>)> {
        self.entries@.map(|i: int, e: (String, String)| (e.0@, e.1@))
    }

    /// An empty store.
    pub fn new() -> (r: QueryStore)
        ensures
            r@ == Seq::<(Seq<char>, Seq<char>)>::empty(),
    {
        let r = QueryStore { entries: Vec::new() };
        proof {
            assert(r@ =~= Seq::<(Seq<char>, Seq<char>)>::empty());
        }
        r
    }

    /// Adds one (name, text) entry at the end of the store.
    pub fn insert(&mut self, name: &str, text: &str)
        ensures
            final(self)@ == old(self)@.push((name@, text@)),
    {
        let entry = (String::from_str(name), String::from_str(text));
        self.entries.push(entry);
        proof {
            assert(self@ =~= old(self)@.push((name@, text@)));
        }
    }

    /// How many entries the store holds.
    pub fn len(&self) -> (n: usize)
        ensures
            n == self@.len(),
    {
        self.entries.len()
    }

    /// The raw text stored for a name, if any.
    pub fn get_raw(&self, name: &str) -> (r: Option<&String>)
        ensures
            match r {
                Some(t) => spec_lookup(self@, name@) == Some(t@),
                None => spec_lookup(self@, name@) is None,
            },
    {
        let key = chars_of(name);
        self.lookup_chars(&key)
    }

    /// First-match lookup by character vector.
    pub(crate) fn lookup_chars(&self, name: &Vec<char>) -> (r: Option<&String>)
        ensures
            match r {
                Some(t) => spec_lookup(self@, name@) == Some(t@),
                None => spec_lookup(self@, name@) is None,
            },
    {
        let mut i: usize = 0;
        proof {
            assert(self@.skip(0) =~= self@);
        }
        while i < self.entries.len()
            invariant
                i <= self.entries.len(),
                spec_lookup(self@, name@) == spec_lookup(self@.skip(i as int), name@),
            decreases self.entries.len() - i,
        {
            proof {
                assert(self@.skip(i as int).first() == (self.entries@[i as int].0@,
                self.entries@[i as int].1@));
                assert(self@.skip(i as int).drop_first() =~= self@.skip(i + 1));
            }
            let key = chars_of(self.entries[i].0.as_str());
            if chars_eq(&key, name) {
                return Some(&self.entries[i].1);
            }
            i += 1;
        }
        proof {
            assert(self@.skip(self@.len() as int) =~= Seq::<(Seq<char>, Seq<char>)>::empty());
        }
        None
    }
}

// ---------------------------------------------------------------------------
// The inheritance directive: a first line of the form
//   zero or more `;`, optional spacing, the word `inherits`, an optional `:`,
//   then a comma-separated list of names made of `a`-`z`, `_`, `(` and `)`,
//   with nothing but spacing after it.
// ---------------------------------------------------------------------------

/// Spacing accepted around the parts of a directive line.
pub open spec fn is_directive_space(c: char) -> bool {
    c == ' ' || c == '\t' || c == '\n' || c == '\u{b}' || c == '\u{c}' || c == '\r' || c
        == '\u{85}' || c == '\u{a0}' || c == '\u{1680}' || (('\u{2000}' as u32) <= (c as u32) && (c
        as u32) <= ('\u{200a}' as u32)) || c == '\u{2028}' || c == '\u{2029}' || c == '\u{202f}'
        || c == '\u{205f}' || c == '\u{3000}'
}

/// A character allowed inside the comma-separated parent name list:
/// lowercase letters, underscore, parentheses, and the separating comma.
pub open spec fn is_name_char(c: char) -> bool {
    (('a' as u32) <= (c as u32) && (c as u32) <= ('z' as u32)) || c == '_' || c == '(' || c == ')'
        || c == ','
}

/// The first position at or after `i` that does not hold a `;`.
pub open spec fn scan_semis(line: Seq<char>, i: int) -> int
    decreases line.len() - i,
    when 0 <= i <= line.len()
{
    if i < line.len() && line[i] == ';' {
        scan_semis(line, i + 1)
    } else {
        i
    }
}

/// The first position at or after `i` that does not hold directive spacing.
pub open spec fn scan_spaces(line: Seq<char>, i: int) -> int
    decreases line.len() - i,
    when 0 <= i <= line.len()
{
    if i < line.len() && is_directive_space(line[i]) {
        scan_spaces(line, i + 1)
    } else {
        i
    }
}

/// The first position at or after `i` that does not hold a name character.
pub open spec fn scan_names(line: Seq<char>, i: int) -> int
    decreases line.len() - i,
    when 0 <= i <= line.len()
{
    if i < line.len() && is_name_char(line[i]) {
        scan_names(line, i + 1)
    } else {
        i
    }
}

/// The first position at or after `i` that holds a comma, or the end.
pub open spec fn scan_non_comma(s: Seq<char>, i: int) -> int
    decreases s.len() - i,
    when 0 <= i <= s.len()
{
    if i < s.len() && s[i] != ',' {
        scan_non_comma(s, i + 1)
    } else {
        i
    }
}

/// The first position at or after `i` that holds a line feed, or the end.
pub open spec fn scan_non_newline(s: Seq<char>, i: int) -> int
    decreases s.len() - i,
    when 0 <= i <= s.len()
{
    if i < s.len() && s[i] != '\n' {
        scan_non_newline(s, i + 1)
    } else {
        i
    }
}

pub proof fn lemma_scan_non_comma_bounds(s: Seq<char>, i: int)
    requires
        0 <= i <= s.len(),
    ensures
        i <= scan_non_comma(s, i) <= s.len(),
    decreases s.len() - i,
{
    if i < s.len() && s[i] != ',' {
        lemma_scan_non_comma_bounds(s, i + 1);
    }
}

/// The literal word that opens an inheritance directive.
pub open spec fn inherits_word() -> Seq<char> {
    seq!['i', 'n', 'h', 'e', 'r', 'i', 't', 's']
}

/// Splits a name list on commas, keeping empty segments, from position `i`.
pub open spec fn split_names_from(s: Seq<char>, i: int) -> Seq<Seq<char>>
    decreases s.len() - i,
    when 0 <= i <= s.len()
{
    let k = scan_non_comma(s, i);
    if !(i <= k <= s.len()) {
        Seq::empty()
    } else if k == s.len() {
        seq![s.subrange(i, k)]
    } else {
        seq![s.subrange(i, k)] + split_names_from(s, k + 1)
    }
}

/// The parent names declared by a directive line, if the line is one.
pub open spec fn directive_parents(line: Seq<char>) -> Option<Seq<Seq<char>>> {
    let i2 = scan_spaces(line, scan_semis(line, 0));
    if 0 <= i2 && i2 + 8 <= line.len() && line.subrange(i2, i2 + 8) == inherits_word() {
        let i3 = scan_spaces(line, i2 + 8);
        let i4: int = if i3 < line.len() && line[i3] == ':' {
            i3 + 1
        } else {
            i3
        };
        let i5 = scan_spaces(line, i4);
        let i6 = scan_names(line, i5);
        if i5 < i6 && scan_spaces(line, i6) == line.len() {
            Some(split_names_from(line.subrange(i5, i6), 0))
        } else {
            None
        }
    } else {
        None
    }
}

/// The parent names declared by a whole text: only a text with a line
/// terminator is inspected, and only its first line.
pub open spec fn text_parents(text: Seq<char>) -> Option<Seq<Seq<char>>> {
    let nl = scan_non_newline(text, 0);
    if nl == text.len() {
        None
    } else {
        directive_parents(text.subrange(0, nl))
    }
}

/// Copies the characters in `[from, to)` out of a vector.
fn copy_range(text: &Vec<char>, from: usize, to: usize) -> (r: Vec<char>)
    requires
        from <= to <= text@.len(),
    ensures
        r@ == text@.subrange(from as int, to as int),
{
    let mut r: Vec<char> = Vec::new();
    let mut j: usize = from;
    while j < to
        invariant
            from <= j <= to <= text@.len(),
            r@ == text@.subrange(from as int, j as int),
        decreases to - j,
    {
        r.push(text[j]);
        proof {
            assert(r@ =~= text@.subrange(from as int, j + 1));
        }
        j += 1;
    }
    r
}

/// Whether a character counts as directive spacing.
fn is_space_char(c: char) -> (r: bool)
    ensures
        r == is_directive_space(c),
{
    let u = c as u32;
    u == 0x20 || u == 0x9 || u == 0xa || u == 0xb || u == 0xc || u == 0xd || u == 0x85 || u == 0xa0
        || u == 0x1680 || (0x2000 <= u && u <= 0x200a) || u == 0x2028 || u == 0x2029 || u == 0x202f
        || u == 0x205f || u == 0x3000
}

/// Whether a character may stand inside the parent name list.
fn is_name_char_exec(c: char) -> (r: bool)
    ensures
        r == is_name_char(c),
{
    let u = c as u32;
    (0x61 <= u && u <= 0x7a) || u == 0x5f || u == 0x28 || u == 0x29 || u == 0x2c
}

/// Splits a comma-separated name region into its segments.
fn split_commas(region: &Vec<char>) -> (r: Vec<Vec<char>>)
    ensures
        r.deep_view() == split_names_from(region@, 0),
{
    let s = Ghost(region@);
    let n = region.len();
    let mut r: Vec<Vec<char>> = Vec::new();
    let mut seg: usize = 0;
    let mut j: usize = 0;
    while j < n
        invariant
            seg <= j <= n,
            n == s@.len(),
            s@ == region@,
            scan_non_comma(s@, seg as int) == scan_non_comma(s@, j as int),
            split_names_from(s@, 0) == r.deep_view() + split_names_from(s@, seg as int),
        decreases n - j,
    {
        if region[j] == ',' {
            proof {
                lemma_scan_non_comma_bounds(s@, j as int);
            }
            let piece = copy_range(region, seg, j);
            let ghost pre = r.deep_view();
            proof {
                assert(piece.deep_view() =~= piece@);
            }
            r.push(piece);
            proof {
                assert(split_names_from(s@, seg as int) == seq![s@.subrange(seg as int, j as int)]
                    + split_names_from(s@, j + 1));
                assert(r.deep_view() =~= pre.push(s@.subrange(seg as int, j as int)));
                assert(r.deep_view() + split_names_from(s@, j + 1) =~= split_names_from(s@, 0));
            }
            seg = j + 1;
        }
        j += 1;
    }
    proof {
        lemma_scan_non_comma_bounds(s@, seg as int);
    }
    let piece = copy_range(region, seg, n);
    let ghost pre = r.deep_view();
    proof {
        assert(piece.deep_view() =~= piece@);
    }
    r.push(piece);
    proof {
        assert(split_names_from(s@, seg as int) == seq![s@.subrange(seg as int, n as int)]);
        assert(r.deep_view() =~= pre.push(s@.subrange(seg as int, n as int)));
        assert(r.deep_view() =~= split_names_from(s@, 0));
    }
    r
}

/// Parses the inheritance directive of a text, if its first line is one.
fn find_parents(text: &Vec<char>) -> (r: Option<Vec<Vec<char>>>)
    ensures
        match r {
            Some(ps) => text_parents(text@) == Some(ps.deep_view()),
            None => text_parents(text@) is None,
        },
{
    let s = Ghost(text@);
    let n = text.len();
    let mut nl: usize = 0;
    while nl < n && text[nl] != '\n'
        invariant
            nl <= n,
            n == s@.len(),
            s@ == text@,
            scan_non_newline(s@, 0) == scan_non_newline(s@, nl as int),
        decreases n - nl,
    {
        nl += 1;
    }
    if nl == n {
        return None;
    }
    let ghost line = s@.subrange(0, nl as int);
    proof {
        assert(scan_non_newline(s@, 0) == nl as int);
        assert(forall|j: int| 0 <= j < nl ==> line[j] == s@[j]);
        assert(line.len() == nl as int);
    }
    let mut i1: usize = 0;
    while i1 < nl && text[i1] == ';'
        invariant
            i1 <= nl < n,
            n == s@.len(),
            s@ == text@,
            line == s@.subrange(0, nl as int),
            scan_semis(line, 0) == scan_semis(line, i1 as int),
        decreases nl - i1,
    {
        i1 += 1;
    }
    proof {
        assert(scan_semis(line, 0) == i1 as int);
    }
    let mut i2: usize = i1;
    while i2 < nl && is_space_char(text[i2])
        invariant
            i1 <= i2 <= nl < n,
            n == s@.len(),
            s@ == text@,
            line == s@.subrange(0, nl as int),
            scan_spaces(line, i1 as int) == scan_spaces(line, i2 as int),
        decreases nl - i2,
    {
        i2 += 1;
    }
    proof {
        assert(scan_spaces(line, i1 as int) == i2 as int);
    }
    if nl - i2 < 8 {
        return None;
    }
    let word_ok = text[i2] == 'i' && text[i2 + 1] == 'n' && text[i2 + 2] == 'h' && text[i2 + 3]
        == 'e' && text[i2 + 4] == 'r' && text[i2 + 5] == 'i' && text[i2 + 6] == 't' && text[i2 + 7]
        == 's';
    proof {
        assert(forall|k: int|
            0 <= k < 8 ==> #[trigger] line.subrange(i2 as int, i2 as int + 8)[k] == line[i2 as int
                + k]);
    }
    if !word_ok {
        proof {
            if line.subrange(i2 as int, i2 as int + 8) == inherits_word() {
                assert(line[i2 as int] == 'i');
                assert(line[i2 as int + 1] == 'n');
                assert(line[i2 as int + 2] == 'h');
                assert(line[i2 as int + 3] == 'e');
                assert(line[i2 as int + 4] == 'r');
                assert(line[i2 as int + 5] == 'i');
                assert(line[i2 as int + 6] == 't');
                assert(line[i2 as int + 7] == 's');
                assert(false);
            }
        }
        return None;
    }
    proof {
        assert(line.subrange(i2 as int, i2 as int + 8) =~= inherits_word());
    }
    let mut i3: usize = i2 + 8;
    while i3 < nl && is_space_char(text[i3])
        invariant
            i2 + 8 <= i3 <= nl < n,
            n == s@.len(),
            s@ == text@,
            line == s@.subrange(0, nl as int),
            scan_spaces(line, i2 as int + 8) == scan_spaces(line, i3 as int),
        decreases nl - i3,
    {
        i3 += 1;
    }
    proof {
        assert(scan_spaces(line, i2 as int + 8) == i3 as int);
    }
    let i4: usize = if i3 < nl && text[i3] == ':' {
        i3 + 1
    } else {
        i3
    };
    let mut i5: usize = i4;
    while i5 < nl && is_space_char(text[i5])
        invariant
            i4 <= i5 <= nl < n,
            n == s@.len(),
            s@ == text@,
            line == s@.subrange(0, nl as int),
            scan_spaces(line, i4 as int) == scan_spaces(line, i5 as int),
        decreases nl - i5,
    {
        i5 += 1;
    }
    proof {
        assert(scan_spaces(line, i4 as int) == i5 as int);
    }
    let mut i6: usize = i5;
    while i6 < nl && is_name_char_exec(text[i6])
        invariant
            i5 <= i6 <= nl < n,
            n == s@.len(),
            s@ == text@,
            line == s@.subrange(0, nl as int),
            scan_names(line, i5 as int) == scan_names(line, i6 as int),
        decreases nl - i6,
    {
        i6 += 1;
    }
    proof {
        assert(scan_names(line, i5 as int) == i6 as int);
    }
    if i6 == i5 {
        return None;
    }
    let mut i7: usize = i6;
    while i7 < nl && is_space_char(text[i7])
        invariant
            i6 <= i7 <= nl < n,
            n == s@.len(),
            s@ == text@,
            line == s@.subrange(0, nl as int),
            scan_spaces(line, i6 as int) == scan_spaces(line, i7 as int),
        decreases nl - i7,
    {
        i7 += 1;
    }
    proof {
        assert(scan_spaces(line, i6 as int) == i7 as int);
    }
    if i7 != nl {
        return None;
    }
    let region = copy_range(text, i5, i6);
    proof {
        assert(region@ =~= line.subrange(i5 as int, i6 as int));
    }
    let parents = split_commas(&region);
    Some(parents)
}

// ---------------------------------------------------------------------------
// Resolution: expanding directives recursively, depth bounded by store size.
// ---------------------------------------------------------------------------

/// The resolved text for a language: its raw text, and after it each listed
/// parent's resolved text, in order; absent when the language has no text,
/// when a parent fails to resolve, or when the fuel runs out.
pub open spec fn spec_resolve(
    store: Seq<(Seq<char>, Seq<char>)>,
    lang: Seq<char>,
    fuel: nat,
) -> Option<Seq<char>>
    decreases fuel, 1int, 0int,
{
    if fuel == 0 {
        None
    } else {
        match spec_lookup(store, lang) {
            None => None,
            Some(raw) => match text_parents(raw) {
                None => Some(raw),
                Some(parents) => spec_resolve_parents(store, parents, (fuel - 1) as nat, raw),
            },
        }
    }
}

/// Appends each parent's resolved text to the accumulator, in order.
pub open spec fn spec_resolve_parents(
    store: Seq<(Seq<char>, Seq<char>)>,
    parents: Seq<Seq<char>>,
    fuel: nat,
    acc: Seq<char>,
) -> Option<Seq<char>>
    decreases fuel, 2int, parents.len(),
{
    if parents.len() == 0 {
        Some(acc)
    } else {
        match spec_resolve(store, parents.first(), fuel) {
            None => None,
            Some(t) => spec_resolve_parents(store, parents.drop_first(), fuel, acc + t),
        }
    }
}

/// The effective query text of a language over a store.  The fuel equals the
/// store size: an acyclic inheritance chain can never be deeper, and a cyclic
/// one exhausts it and fails.
pub open spec fn spec_query(store: Seq<(Seq<char>, Seq<char>)>, lang: Seq<char>) -> Option<
    Seq<char>,
> {
    spec_resolve(store, lang, store.len() as nat)
}

/// Resolves one language name with the given fuel bound.
fn resolve_chars(store: &QueryStore, lang: &Vec<char>, fuel: usize) -> (r: Option<String>)
    ensures
        match r {
            Some(t) => spec_resolve(store@, lang@, fuel as nat) == Some(t@),
            None => spec_resolve(store@, lang@, fuel as nat) is None,
        },
    decreases fuel,
{
    if fuel == 0 {
        return None;
    }
    let raw = match store.lookup_chars(lang) {
        None => {
            return None;
        },
        Some(t) => t,
    };
    let raw_chars = chars_of(raw.as_str());
    let parents = match find_parents(&raw_chars) {
        None => {
            return Some(raw.clone());
        },
        Some(ps) => ps,
    };
    let ghost gparents = parents.deep_view();
    let ghost inner_fuel = (fuel - 1) as nat;
    let mut acc = raw.clone();
    let mut k: usize = 0;
    proof {
        assert(gparents.skip(0) =~= gparents);
        assert(spec_resolve(store@, lang@, fuel as nat) == spec_resolve_parents(
            store@,
            gparents,
            inner_fuel,
            raw@,
        ));
    }
    while k < parents.len()
        invariant
            k <= parents.len(),
            gparents == parents.deep_view(),
            gparents.len() == parents@.len(),
            inner_fuel == (fuel - 1) as nat,
            fuel >= 1,
            spec_resolve(store@, lang@, fuel as nat) == spec_resolve_parents(
                store@,
                gparents,
                inner_fuel,
                raw@,
            ),
            spec_resolve_parents(store@, gparents.skip(k as int), inner_fuel, acc@)
                == spec_resolve_parents(store@, gparents, inner_fuel, raw@),
        decreases parents.len() - k,
    {
        proof {
            assert(gparents.skip(k as int).first() == gparents[k as int]);
            assert(gparents.skip(k as int).drop_first() =~= gparents.skip(k + 1));
            assert(parents@[k as int].deep_view() =~= parents@[k as int]@);
            assert(gparents[k as int] == parents@[k as int]@);
        }
        match resolve_chars(store, &parents[k], fuel - 1) {
            None => {
                return None;
            },
            Some(t) => {
                acc.append(t.as_str());
            },
        }
        k += 1;
    }
    proof {
        assert(gparents.skip(gparents.len() as int) =~= Seq::<Seq<char>>::empty());
    }
    Some(acc)
}

// ---------------------------------------------------------------------------
// Laws of resolution.
// ---------------------------------------------------------------------------

/// Raising the fuel bound cannot change a resolution that succeeded.
pub proof fn lemma_resolve_fuel_mono(
    store: Seq<(Seq<char>, Seq<char>)>,
    lang: Seq<char>,
    f1: nat,
    f2: nat,
)
    requires
        f1 <= f2,
        spec_resolve(store, lang, f1) is Some,
    ensures
        spec_resolve(store, lang, f2) == spec_resolve(store, lang, f1),
    decreases f1, 1int, 0int,
{
    let raw = spec_lookup(store, lang).unwrap();
    match text_parents(raw) {
        None => {},
        Some(parents) => {
            lemma_resolve_parents_fuel_mono(store, parents, (f1 - 1) as nat, (f2 - 1) as nat, raw);
        },
    }
}

/// Raising the fuel bound cannot change a parent-list resolution that
/// succeeded.
pub proof fn lemma_resolve_parents_fuel_mono(
    store: Seq<(Seq<char>, Seq<char>)>,
    parents: Seq<Seq<char>>,
    f1: nat,
    f2: nat,
    acc: Seq<char>,
)
    requires
        f1 <= f2,
        spec_resolve_parents(store, parents, f1, acc) is Some,
    ensures
        spec_resolve_parents(store, parents, f2, acc) == spec_resolve_parents(
            store,
            parents,
            f1,
            acc,
        ),
    decreases f1, 2int, parents.len(),
{
    if parents.len() == 0 {
    } else {
        lemma_resolve_fuel_mono(store, parents.first(), f1, f2);
        let t = spec_resolve(store, parents.first(), f1).unwrap();
        lemma_resolve_parents_fuel_mono(store, parents.drop_first(), f1, f2, acc + t);
    }
}

/// A stored text whose first line declares no inheritance resolves to
/// exactly the raw text, unchanged.
pub proof fn lemma_resolve_no_directive(store: Seq<(Seq<char>, Seq<char>)>, lang: Seq<char>)
    requires
        spec_lookup(store, lang) is Some,
        text_parents(spec_lookup(store, lang).unwrap()) is None,
    ensures
        spec_query(store, lang) == spec_lookup(store, lang),
{
    assert(store.len() > 0);
}

/// A text whose first line names a single parent resolves, when its own
/// resolution succeeds, to the raw text followed directly by the parent's
/// own resolved text.
pub proof fn lemma_resolve_single_parent(
    store: Seq<(Seq<char>, Seq<char>)>,
    lang: Seq<char>,
    parent: Seq<char>,
)
    requires
        spec_lookup(store, lang) is Some,
        text_parents(spec_lookup(store, lang).unwrap()) == Some(seq![parent]),
        spec_query(store, lang) is Some,
    ensures
        spec_query(store, parent) is Some,
        spec_query(store, lang) == Some(
            spec_lookup(store, lang).unwrap() + spec_query(store, parent).unwrap(),
        ),
{
    let raw = spec_lookup(store, lang).unwrap();
    let n = store.len() as nat;
    assert(n > 0);
    let inner = (n - 1) as nat;
    assert(seq![parent].first() == parent);
    assert(seq![parent].drop_first() =~= Seq::<Seq<char>>::empty());
    assert(spec_query(store, lang) == spec_resolve_parents(store, seq![parent], inner, raw));
    assert(spec_resolve(store, parent, inner) is Some);
    let t = spec_resolve(store, parent, inner).unwrap();
    assert(spec_resolve_parents(store, seq![parent], inner, raw) == spec_resolve_parents(
        store,
        Seq::<Seq<char>>::empty(),
        inner,
        raw + t,
    ));
    lemma_resolve_fuel_mono(store, parent, inner, n);
}

/// Two distinct names both stored mean at least two entries.
proof fn lemma_two_distinct_keys(store: Seq<(Seq<char>, Seq<char>)>, a: Seq<char>, b: Seq<char>)
    requires
        a != b,
        spec_lookup(store, a) is Some,
        spec_lookup(store, b) is Some,
    ensures
        store.len() >= 2,
    decreases store.len(),
{
    if store.first().0 == a {
        assert(spec_lookup(store.drop_first(), b) is Some);
        assert(store.drop_first().len() >= 1);
    } else if store.first().0 == b {
        assert(spec_lookup(store.drop_first(), a) is Some);
        assert(store.drop_first().len() >= 1);
    } else {
        lemma_two_distinct_keys(store.drop_first(), a, b);
    }
}

/// A text whose first line names a single parent that is itself stored
/// without a directive of its own resolves to the raw text followed by the
/// parent's text, with nothing assumed of the declaring language's own
/// resolution.
pub proof fn lemma_resolve_single_plain_parent(
    store: Seq<(Seq<char>, Seq<char>)>,
    lang: Seq<char>,
    parent: Seq<char>,
)
    requires
        lang != parent,
        spec_lookup(store, lang) is Some,
        text_parents(spec_lookup(store, lang).unwrap()) == Some(seq![parent]),
        spec_lookup(store, parent) is Some,
        text_parents(spec_lookup(store, parent).unwrap()) is None,
    ensures
        spec_query(store, parent) == spec_lookup(store, parent),
        spec_query(store, lang) == Some(
            spec_lookup(store, lang).unwrap() + spec_lookup(store, parent).unwrap(),
        ),
{
    lemma_resolve_no_directive(store, parent);
    lemma_two_distinct_keys(store, lang, parent);
    let raw = spec_lookup(store, lang).unwrap();
    let praw = spec_lookup(store, parent).unwrap();
    let n = store.len() as nat;
    let inner = (n - 1) as nat;
    assert(seq![parent].first() == parent);
    assert(seq![parent].drop_first() =~= Seq::<Seq<char>>::empty());
    assert(spec_resolve(store, parent, inner) == Some(praw));
    assert(spec_query(store, lang) == spec_resolve_parents(store, seq![parent], inner, raw));
    assert(spec_resolve_parents(store, seq![parent], inner, raw) == spec_resolve_parents(
        store,
        Seq::<Seq<char>>::empty(),
        inner,
        raw + praw,
    ));
}

/// Resolution is idempotent: any two resolutions of the same language over
/// the same store yield the same text, character for character.
pub proof fn lemma_resolve_deterministic(
    store: Seq<(Seq<char>, Seq<char>)>,
    lang: Seq<char>,
    first: Option<Seq<char>>,
    second: Option<Seq<char>>,
)
    requires
        first == spec_query(store, lang),
        second == spec_query(store, lang),
    ensures
        first == second,
{
}

/// The outcome of resolving one (language, kind): the language may have no
/// text of that kind at all, its inheritance chain may be broken or cyclic,
/// or resolution produces the effective text.
pub enum Resolution {
    Missing,
    Broken,
    Text(String),
}

/// Resolves the query text stored under `lang`, expanding inheritance
/// directives, and telling an absent text apart from a broken chain.
pub fn resolve(store: &QueryStore, lang: &str) -> (r: Resolution)
    ensures
        (r is Missing <==> spec_lookup(store@, lang@) is None),
        (r is Broken <==> spec_lookup(store@, lang@) is Some && spec_query(store@, lang@) is None),
        match r {
            Resolution::Text(t) => spec_query(store@, lang@) == Some(t@),
            _ => spec_query(store@, lang@) is None,
        },
{
    let key = chars_of(lang);
    match store.lookup_chars(&key) {
        None => Resolution::Missing,
        Some(_) => match resolve_chars(store, &key, store.len()) {
            None => Resolution::Broken,
            Some(t) => Resolution::Text(t),
        },
    }
}

/// The effective query text for a language, or nothing when the language has
/// no such text or its inheritance chain cannot be resolved.
pub fn get_query(store: &QueryStore, lang: &str) -> (r: Option<String>)
    ensures
        match r {
            Some(t) => spec_query(store@, lang@) == Some(t@),
            None => spec_query(store@, lang@) is None,
        },
{
    match resolve(store, lang) {
        Resolution::Text(t) => Some(t),
        _ => None,
    }
}

} // verus!
