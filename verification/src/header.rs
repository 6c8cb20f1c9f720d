//! Request headers: parsing of `key: value` lines and the header mapping
//! of a request.

use crate::text::{
    chars_of, is_space, lemma_trimmed_ignores_space_around, lemma_trimmed_is_a_stretch, trim,
    trimmed,
};
use vstd::prelude::*;

verus! {

/// Whether position `i` of `line` holds a colon and no other position does.
pub open spec fn sole_colon_at(line: Seq<char>, i: int) -> bool {
    &&& 0 <= i < line.len()
    &&& line[i] == ':'
    &&& forall|j: int| 0 <= j < line.len() && line[j] == ':' ==> j == i
}

/// The name and value that `line` stands for. A line is well formed when it
/// holds exactly one colon: the name is what stands before the colon and
/// the value what stands after it, each without surrounding whitespace.
pub open spec fn header_entry(line: Seq<char>) -> Option<(Seq<char>, Seq<char>)> {
    if exists|i: int| sole_colon_at(line, i) {
        let i = choose|i: int| sole_colon_at(line, i);
        Some((trimmed(line.take(i)), trimmed(line.skip(i + 1))))
    } else {
        None
    }
}

/// The texts of `lines`.
pub open spec fn line_texts(lines: Seq<String>) -> Seq<Seq<char>> {
    lines.map_values(|line: String| line@)
}

/// Whether every line of `lines` is a well-formed header.
pub open spec fn all_well_formed(lines: Seq<Seq<char>>) -> bool {
    forall|i: int| 0 <= i < lines.len() ==> (#[trigger] header_entry(lines[i])) is Some
}

/// Whether `i` is the position of the first malformed line of `lines`.
pub open spec fn first_malformed_at(lines: Seq<Seq<char>>, i: int) -> bool {
    &&& 0 <= i < lines.len()
    &&& header_entry(lines[i]) is None
    &&& all_well_formed(lines.take(i))
}

/// The position of the first malformed line of `lines`.
pub open spec fn first_malformed(lines: Seq<Seq<char>>) -> int {
    choose|i: int| first_malformed_at(lines, i)
}

/// The name under which a request carries the header that is written
/// `name`: what `reqwest::header::HeaderName::from_bytes` makes of the text,
/// which is the text in lower case. `None` where the text is no header name.
pub uninterp spec fn normal_name(name: Seq<char>) -> Option<Seq<char>>;

/// The name that is bound for a header written `name`, where `normal` is
/// what the request would carry for it: that name, or `name` as written
/// where HTTP admits no such header name.
pub open spec fn carried_name(name: Seq<char>, normal: Option<Seq<char>>) -> Seq<char> {
    match normal {
        Some(carried) => carried,
        None => name,
    }
}

/// The name that a request carries for line `i`, as `normals` gives it;
/// `None` where `normals` does not reach that far.
pub open spec fn normal_at(normals: Seq<Option<Seq<char>>>, i: int) -> Option<Seq<char>> {
    if 0 <= i < normals.len() {
        normals[i]
    } else {
        None
    }
}

/// For each line of `lines`, the name that a request carries for the name
/// written in it; `None` for a malformed line.
pub open spec fn normal_names(lines: Seq<Seq<char>>) -> Seq<Option<Seq<char>>> {
    Seq::new(
        lines.len(),
        |i: int|
            match header_entry(lines[i]) {
                Some(entry) => normal_name(entry.0),
                None => None,
            },
    )
}

/// The texts of `names`.
pub open spec fn name_texts(names: Seq<Option<String>>) -> Seq<Option<Seq<char>>> {
    names.map_values(
        |name: Option<String>|
            match name {
                Some(text) => Some(text@),
                None => None,
            },
    )
}

/// The mapping that well-formed `lines` describe, where `normals` gives for
/// each line the name that a request carries for the name written in it.
/// Each line binds its carried name to its value, a later line replacing an
/// earlier one of the same carried name. A name that HTTP does not admit is
/// bound as written.
pub open spec fn header_map(lines: Seq<Seq<char>>, normals: Seq<Option<Seq<char>>>) -> Map<
    Seq<char>,
    Seq<char>,
>
    decreases lines.len(),
{
    if lines.len() == 0 {
        Map::empty()
    } else {
        let entry = header_entry(lines.last()).unwrap();
        let name = carried_name(entry.0, normal_at(normals, lines.len() - 1));
        header_map(lines.drop_last(), normals).insert(name, entry.1)
    }
}

/// Whether entry `i` of `entries` has the name `name`.
pub open spec fn named_at(entries: Seq<(Seq<char>, Seq<char>)>, name: Seq<char>, i: int) -> bool {
    0 <= i < entries.len() && entries[i].0 == name
}

/// Whether no two entries share a name.
pub open spec fn distinct_names(entries: Seq<(Seq<char>, Seq<char>)>) -> bool {
    forall|i: int, j: int|
        0 <= i < entries.len() && 0 <= j < entries.len() && i != j ==> (#[trigger] entries[i]).0
            != (#[trigger] entries[j]).0
}

/// The mapping from each name in `entries` to the value listed with it.
pub open spec fn as_map(entries: Seq<(Seq<char>, Seq<char>)>) -> Map<Seq<char>, Seq<char>> {
    Map::new(
        |name: Seq<char>| exists|i: int| named_at(entries, name, i),
        |name: Seq<char>| entries[choose|i: int| named_at(entries, name, i)].1,
    )
}

/// Each entry of a list with distinct names is bound in the list's mapping.
pub proof fn lemma_entry_is_bound(entries: Seq<(Seq<char>, Seq<char>)>, i: int)
    requires
        distinct_names(entries),
        0 <= i < entries.len(),
    ensures
        as_map(entries).contains_key(entries[i].0),
        as_map(entries)[entries[i].0] == entries[i].1,
{
    let name = entries[i].0;
    assert(named_at(entries, name, i));
    let found = choose|k: int| named_at(entries, name, k);
    assert(named_at(entries, name, found));
    assert(found == i);
}

/// Listing another value with the name of entry `i` binds that name to the
/// new value and leaves every other binding as it is.
pub proof fn lemma_value_replaced(entries: Seq<(Seq<char>, Seq<char>)>, i: int, value: Seq<char>)
    requires
        distinct_names(entries),
        0 <= i < entries.len(),
    ensures
        distinct_names(entries.update(i, (entries[i].0, value))),
        as_map(entries.update(i, (entries[i].0, value))) == as_map(entries).insert(
            entries[i].0,
            value,
        ),
{
    let name = entries[i].0;
    let after = entries.update(i, (name, value));
    assert forall|a: int, b: int|
        0 <= a < after.len() && 0 <= b < after.len() && a != b implies (#[trigger] after[a]).0 != (
    #[trigger] after[b]).0 by {
        assert(after[a].0 == entries[a].0);
        assert(after[b].0 == entries[b].0);
    }
    assert forall|k: Seq<char>|
        as_map(after).contains_key(k) <==> #[trigger] as_map(entries).insert(
            name,
            value,
        ).contains_key(k) by {
        if as_map(after).contains_key(k) {
            let j = choose|j: int| named_at(after, k, j);
            assert(named_at(entries, k, j));
        }
        if as_map(entries).contains_key(k) {
            let j = choose|j: int| named_at(entries, k, j);
            assert(named_at(after, k, j));
        }
        if k == name {
            assert(named_at(after, k, i));
        }
    }
    assert forall|k: Seq<char>| #[trigger] as_map(after).contains_key(k) implies as_map(after)[k]
        == as_map(entries).insert(name, value)[k] by {
        let j = choose|j: int| named_at(after, k, j);
        lemma_entry_is_bound(after, j);
        if k != name {
            assert(named_at(entries, k, j));
            lemma_entry_is_bound(entries, j);
        } else {
            assert(named_at(after, k, i));
        }
    }
    assert(as_map(after) =~= as_map(entries).insert(name, value));
}

/// Listing a name that was not listed binds it and leaves every other
/// binding as it is.
pub proof fn lemma_name_added(
    entries: Seq<(Seq<char>, Seq<char>)>,
    name: Seq<char>,
    value: Seq<char>,
)
    requires
        distinct_names(entries),
        forall|k: int| !named_at(entries, name, k),
    ensures
        distinct_names(entries.push((name, value))),
        as_map(entries.push((name, value))) == as_map(entries).insert(name, value),
{
    let after = entries.push((name, value));
    let last = entries.len() as int;
    assert forall|a: int, b: int|
        0 <= a < after.len() && 0 <= b < after.len() && a != b implies (#[trigger] after[a]).0 != (
    #[trigger] after[b]).0 by {
        if a < last && b < last {
            assert(entries[a].0 != entries[b].0);
        } else if a < last {
            assert(!named_at(entries, name, a));
        } else {
            assert(!named_at(entries, name, b));
        }
    }
    assert forall|k: Seq<char>|
        as_map(after).contains_key(k) <==> #[trigger] as_map(entries).insert(
            name,
            value,
        ).contains_key(k) by {
        if as_map(after).contains_key(k) {
            let j = choose|j: int| named_at(after, k, j);
            if j < last {
                assert(named_at(entries, k, j));
            }
        }
        if as_map(entries).contains_key(k) {
            let j = choose|j: int| named_at(entries, k, j);
            assert(named_at(after, k, j));
        }
        if k == name {
            assert(named_at(after, k, last));
        }
    }
    assert forall|k: Seq<char>| #[trigger] as_map(after).contains_key(k) implies as_map(after)[k]
        == as_map(entries).insert(name, value)[k] by {
        let j = choose|j: int| named_at(after, k, j);
        lemma_entry_is_bound(after, j);
        if k != name {
            assert(named_at(entries, k, j));
            lemma_entry_is_bound(entries, j);
        } else {
            assert(named_at(after, k, last));
        }
    }
    assert(as_map(after) =~= as_map(entries).insert(name, value));
}

/// The mapping of a list with distinct names binds as many names as the
/// list has entries.
pub proof fn lemma_one_binding_per_entry(entries: Seq<(Seq<char>, Seq<char>)>)
    requires
        distinct_names(entries),
    ensures
        as_map(entries).dom().finite(),
        as_map(entries).dom().len() == entries.len(),
    decreases entries.len(),
{
    if entries.len() == 0 {
        assert(as_map(entries).dom() =~= Set::empty());
    } else {
        let earlier = entries.drop_last();
        let last = entries.last();
        assert forall|i: int, j: int|
            0 <= i < earlier.len() && 0 <= j < earlier.len() && i != j implies (
        #[trigger] earlier[i]).0 != (#[trigger] earlier[j]).0 by {
            assert(earlier[i] == entries[i]);
            assert(earlier[j] == entries[j]);
        }
        lemma_one_binding_per_entry(earlier);
        assert(!as_map(earlier).dom().contains(last.0)) by {
            if as_map(earlier).dom().contains(last.0) {
                let i = choose|i: int| named_at(earlier, last.0, i);
                assert(earlier[i] == entries[i]);
                assert(entries[i].0 != entries[entries.len() - 1].0);
            }
        }
        assert(as_map(entries).dom() =~= as_map(earlier).dom().insert(last.0)) by {
            assert forall|name: Seq<char>|
                as_map(entries).dom().contains(name) <==> as_map(earlier).dom().insert(
                    last.0,
                ).contains(name) by {
                if as_map(entries).dom().contains(name) {
                    let i = choose|i: int| named_at(entries, name, i);
                    if i < earlier.len() {
                        assert(named_at(earlier, name, i));
                    }
                }
                if as_map(earlier).dom().contains(name) {
                    let i = choose|i: int| named_at(earlier, name, i);
                    assert(named_at(entries, name, i));
                }
                if name == last.0 {
                    assert(named_at(entries, name, entries.len() - 1));
                }
            }
        }
    }
}

/// Whitespace around a header line does not matter: the line stands for the
/// same name and value once it is trimmed, and is malformed if it was.
pub proof fn lemma_header_entry_ignores_space_around(line: Seq<char>)
    ensures
        header_entry(trimmed(line)) == header_entry(line),
{
    let (from, to) = lemma_trimmed_is_a_stretch(line);
    let kept = line.subrange(from, to);
    assert(!is_space(':'));
    assert forall|i: int| 0 <= i < line.len() && line[i] == ':' implies from <= i < to by {
        if i < from {
            assert(line.take(from)[i] == line[i]);
        }
        if i >= to {
            assert(line.skip(to)[i - to] == line[i]);
        }
    }
    assert forall|j: int| sole_colon_at(kept, j) implies sole_colon_at(line, j + from) by {
        assert(kept[j] == line[j + from]);
        assert forall|k: int| 0 <= k < line.len() && line[k] == ':' implies k == j + from by {
            assert(kept[k - from] == line[k]);
        }
    }
    assert forall|i: int| sole_colon_at(line, i) implies sole_colon_at(kept, i - from) by {
        assert(kept[i - from] == line[i]);
        assert forall|k: int| 0 <= k < kept.len() && kept[k] == ':' implies k == i - from by {
            assert(kept[k] == line[k + from]);
        }
    }
    if exists|i: int| sole_colon_at(line, i) {
        let i = choose|i: int| sole_colon_at(line, i);
        assert(sole_colon_at(kept, i - from));
        let j = choose|j: int| sole_colon_at(kept, j);
        assert(sole_colon_at(line, j + from));
        assert(j == i - from);
        let none = Seq::<char>::empty();
        assert(line.take(i) =~= line.take(from) + kept.take(j) + none);
        lemma_trimmed_ignores_space_around(line.take(from), kept.take(j), none);
        assert(line.skip(i + 1) =~= none + kept.skip(j + 1) + line.skip(to));
        lemma_trimmed_ignores_space_around(none, kept.skip(j + 1), line.skip(to));
    } else {
        if exists|j: int| sole_colon_at(kept, j) {
            let j = choose|j: int| sole_colon_at(kept, j);
            assert(sole_colon_at(line, j + from));
        }
    }
}

/// A list of lines has at most one first malformed line.
pub proof fn lemma_first_malformed_is_unique(lines: Seq<Seq<char>>, i: int, j: int)
    requires
        first_malformed_at(lines, i),
        first_malformed_at(lines, j),
    ensures
        i == j,
{
    if i < j {
        assert(lines.take(j)[i] == lines[i]);
        assert(header_entry(lines.take(j)[i]) is Some);
    }
    if j < i {
        assert(lines.take(i)[j] == lines[j]);
        assert(header_entry(lines.take(i)[j]) is Some);
    }
}

/// A list with a malformed line has a first malformed line.
pub proof fn lemma_first_malformed_exists(lines: Seq<Seq<char>>, i: int)
    requires
        0 <= i < lines.len(),
        header_entry(lines[i]) is None,
    ensures
        first_malformed_at(lines, first_malformed(lines)),
        first_malformed(lines) <= i,
    decreases i,
{
    if all_well_formed(lines.take(i)) {
        assert(first_malformed_at(lines, i));
        lemma_first_malformed_is_unique(lines, i, first_malformed(lines));
    } else {
        let k = choose|k: int|
            0 <= k < lines.take(i).len() && !((#[trigger] header_entry(lines.take(i)[k])) is Some);
        assert(lines.take(i)[k] == lines[k]);
        lemma_first_malformed_exists(lines, k);
    }
}

/// Splits a header line of the form `key: value` into its trimmed name and
/// value. The line must hold exactly one colon.
pub fn parse_header(line: &str) -> (entry: Option<(String, String)>)
    ensures
        match entry {
            Some(pair) => header_entry(line@) == Some((pair.0@, pair.1@)),
            None => header_entry(line@) is None,
        },
{
    let chars = chars_of(line);
    let n: usize = chars.len();
    let mut at: usize = 0;
    while at < n && chars[at] != ':'
        invariant
            at <= n == chars@.len(),
            forall|k: int| 0 <= k < at ==> chars@[k] != ':',
        decreases n - at,
    {
        at += 1;
    }
    if at == n {
        assert(forall|i: int| !sole_colon_at(line@, i));
        return None;
    }
    let mut next: usize = at + 1;
    while next < n && chars[next] != ':'
        invariant
            at < next <= n == chars@.len(),
            forall|k: int| at < k < next ==> chars@[k] != ':',
        decreases n - next,
    {
        next += 1;
    }
    if next < n {
        assert forall|i: int| !sole_colon_at(line@, i) by {
            if sole_colon_at(line@, i) {
                assert(line@[at as int] == ':');
                assert(line@[next as int] == ':');
            }
        }
        return None;
    }
    proof {
        assert(sole_colon_at(line@, at as int));
        let i = choose|i: int| sole_colon_at(line@, i);
        assert(sole_colon_at(line@, i));
        assert(i == at);
    }
    let name = trim(line.substring_char(0, at)).to_owned();
    let value = trim(line.substring_char(at + 1, n)).to_owned();
    Some((name, value))
}

/// The header mapping of a request: each name is bound to one value.
/// `insert` and `get` take a name as it is written and go by the name that
/// a request carries for it; `bind` and `lookup` take the name as it is.
#[derive(Clone, Debug)]
pub struct Headers {
    entries: Vec<(String, String)>,
}

impl View for Headers {
    type V = Map<Seq<char>, Seq<char>>;

    /// The mapping from header name to header value.
    open spec fn view(&self) -> Map<Seq<char>, Seq<char>> {
        as_map(self.listing())
    }
}

impl Headers {
    /// The entries in the order in which their names were first bound.
    pub closed spec fn listing(&self) -> Seq<(Seq<char>, Seq<char>)> {
        self.entries@.map_values(|e: (String, String)| (e.0@, e.1@))
    }

    /// Whether the mapping is well formed: no name is listed twice.
    pub open spec fn wf(&self) -> bool {
        distinct_names(self.listing())
    }

    /// A mapping without entries.
    pub fn new() -> (headers: Headers)
        ensures
            headers.wf(),
            headers@ == Map::<Seq<char>, Seq<char>>::empty(),
            headers.listing() == Seq::<(Seq<char>, Seq<char>)>::empty(),
    {
        let headers = Headers { entries: Vec::new() };
        assert(headers.listing() =~= Seq::empty());
        assert(headers@ =~= Map::empty());
        headers
    }

    /// The number of entries, which is the number of names bound.
    pub fn len(&self) -> (n: usize)
        ensures
            n == self.listing().len(),
            self.wf() ==> n == self@.dom().len(),
    {
        proof {
            if self.wf() {
                lemma_one_binding_per_entry(self.listing());
            }
        }
        self.entries.len()
    }

    /// The name of entry `i`.
    pub fn name_at(&self, i: usize) -> (name: &String)
        requires
            i < self.listing().len(),
        ensures
            name@ == self.listing()[i as int].0,
            self.wf() ==> self@.contains_key(name@),
    {
        proof {
            if self.wf() {
                lemma_entry_is_bound(self.listing(), i as int);
            }
        }
        &self.entries[i].0
    }

    /// The value of entry `i`, which is the value bound to its name.
    pub fn value_at(&self, i: usize) -> (value: &String)
        requires
            i < self.listing().len(),
        ensures
            value@ == self.listing()[i as int].1,
            self.wf() ==> self@[self.listing()[i as int].0] == value@,
    {
        proof {
            if self.wf() {
                lemma_entry_is_bound(self.listing(), i as int);
            }
        }
        &self.entries[i].1
    }

    /// The value bound to `name`, taken as written, if any.
    pub fn lookup(&self, name: &str) -> (value: Option<&String>)
        requires
            self.wf(),
        ensures
            match value {
                Some(v) => self@.contains_key(name@) && self@[name@] == v@,
                None => !self@.contains_key(name@),
            },
    {
        let wanted = name.to_owned();
        let mut i: usize = 0;
        while i < self.entries.len()
            invariant
                i <= self.entries.len(),
                wanted@ == name@,
                self.wf(),
                forall|k: int| 0 <= k < i ==> !named_at(self.listing(), name@, k),
            decreases self.entries.len() - i,
        {
            if self.entries[i].0 == wanted {
                proof {
                    lemma_entry_is_bound(self.listing(), i as int);
                }
                return Some(&self.entries[i].1);
            }
            i += 1;
        }
        assert(forall|k: int| !named_at(self.listing(), name@, k));
        None
    }

    /// The value of the header written `name`, if any: the value bound to
    /// the name that a request carries for it.
    pub fn get(&self, name: &str) -> (value: Option<&String>)
        requires
            self.wf(),
        ensures
            ({
                let carried = carried_name(name@, normal_name(name@));
                match value {
                    Some(v) => self@.contains_key(carried) && self@[carried] == v@,
                    None => !self@.contains_key(carried),
                }
            }),
    {
        match header_name(name) {
            Some(carried) => self.lookup(carried.as_str()),
            None => self.lookup(name),
        }
    }

    /// Binds `name`, taken as written, to `value`, replacing the value that
    /// `name` was bound to before, if any.
    pub fn bind(&mut self, name: String, value: String)
        requires
            old(self).wf(),
        ensures
            final(self).wf(),
            final(self)@ == old(self)@.insert(name@, value@),
    {
        let ghost before = self.listing();
        let mut i: usize = 0;
        while i < self.entries.len()
            invariant
                i <= self.entries.len(),
                self.listing() == before,
                old(self).listing() == before,
                distinct_names(before),
                forall|k: int| 0 <= k < i ==> !named_at(before, name@, k),
            decreases self.entries.len() - i,
        {
            if self.entries[i].0 == name {
                assert(before[i as int].0 == name@);
                self.entries.set(i, (name, value));
                proof {
                    assert(self.listing() =~= before.update(i as int, (name@, value@)));
                    lemma_value_replaced(before, i as int, value@);
                }
                return ;
            }
            i += 1;
        }
        self.entries.push((name, value));
        proof {
            assert(self.listing() =~= before.push((name@, value@)));
            lemma_name_added(before, name@, value@);
        }
    }
    /// Sets the header written `name` to `value`: binds the name that a
    /// request carries for it, replacing the value bound to that name
    /// before, if any.
    pub fn insert(&mut self, name: String, value: String)
        requires
            old(self).wf(),
        ensures
            final(self).wf(),
            final(self)@ == old(self)@.insert(carried_name(name@, normal_name(name@)), value@),
    {
        match header_name(name.as_str()) {
            Some(carried) => self.bind(carried, value),
            None => self.bind(name, value),
        }
    }
}

/// Calls `reqwest::header::HeaderName::from_bytes` on the bytes of `name`
/// and returns the text of the header name it yields, which the contract
/// names `normal_name(name)`; `None` where it rejects the bytes.
#[verifier::external_body]
pub(crate) fn header_name(name: &str) -> (normal: Option<String>)
    ensures
        match normal {
            Some(text) => normal_name(name@) == Some(text@),
            None => normal_name(name@) is None,
        },
{
    match reqwest::header::HeaderName::from_bytes(name.as_bytes()) {
        Ok(normal) => Some(normal.as_str().to_owned()),
        Err(_) => None,
    }
}

/// For each line of `lines`, the name that a request carries for the name
/// written in it; `None` for a malformed line and for a name that HTTP
/// does not admit.
pub fn header_names(lines: &Vec<String>) -> (names: Vec<Option<String>>)
    ensures
        name_texts(names@) == normal_names(line_texts(lines@)),
{
    let ghost texts = line_texts(lines@);
    let mut names: Vec<Option<String>> = Vec::new();
    let mut i: usize = 0;
    while i < lines.len()
        invariant
            i <= lines.len(),
            texts == line_texts(lines@),
            names.len() == i,
            forall|k: int| 0 <= k < i ==> name_texts(names@)[k] == normal_names(texts)[k],
        decreases lines.len() - i,
    {
        assert(texts[i as int] == lines@[i as int]@);
        let normal = match parse_header(lines[i].as_str()) {
            Some(pair) => header_name(pair.0.as_str()),
            None => None,
        };
        let ghost before = names@;
        names.push(normal);
        proof {
            assert forall|k: int| 0 <= k <= i implies name_texts(names@)[k] == normal_names(
                texts,
            )[k] by {
                if k < i {
                    assert(names@[k] == before[k]);
                    assert(name_texts(before)[k] == normal_names(texts)[k]);
                }
            }
        }
        i += 1;
    }
    assert(name_texts(names@) =~= normal_names(texts));
    names
}

/// Parses every line of `lines` and collects the entries into a mapping,
/// where `names` gives for each line the name that a request carries for
/// the name written in it. A line for which `names` gives none binds its
/// name as written. On a malformed line the result is the position of the
/// first such line.
pub fn bind_headers(lines: &Vec<String>, names: &Vec<Option<String>>) -> (parsed: Result<
    Headers,
    usize,
>)
    ensures
        match parsed {
            Ok(headers) => {
                &&& all_well_formed(line_texts(lines@))
                &&& headers.wf()
                &&& headers@ == header_map(line_texts(lines@), name_texts(names@))
            },
            Err(i) => first_malformed_at(line_texts(lines@), i as int),
        },
{
    let ghost texts = line_texts(lines@);
    let ghost normals = name_texts(names@);
    let mut headers = Headers::new();
    let mut i: usize = 0;
    while i < lines.len()
        invariant
            i <= lines.len(),
            texts == line_texts(lines@),
            texts.len() == lines.len(),
            normals == name_texts(names@),
            all_well_formed(texts.take(i as int)),
            headers.wf(),
            headers@ == header_map(texts.take(i as int), normals),
        decreases lines.len() - i,
    {
        assert(texts[i as int] == lines@[i as int]@);
        match parse_header(lines[i].as_str()) {
            Some(pair) => {
                let (name, value) = pair;
                let carried = if i < names.len() {
                    match &names[i] {
                        Some(normal) => normal.clone(),
                        None => name,
                    }
                } else {
                    name
                };
                headers.bind(carried, value);
                proof {
                    let upto = texts.take(i + 1);
                    assert(upto.drop_last() =~= texts.take(i as int));
                    assert(upto.last() == texts[i as int]);
                    assert forall|k: int| 0 <= k < upto.len() implies (#[trigger] header_entry(
                        upto[k],
                    )) is Some by {
                        if k < i {
                            assert(texts.take(i as int)[k] == upto[k]);
                        }
                    }
                }
            },
            None => {
                return Err(i);
            },
        }
        i += 1;
    }
    assert(texts.take(i as int) =~= texts);
    Ok(headers)
}

/// Parses every line of `lines` and collects the entries into a mapping
/// under the names that a request carries. On a malformed line the result
/// is the position of the first such line.
pub fn parse_headers(lines: &Vec<String>) -> (parsed: Result<Headers, usize>)
    ensures
        match parsed {
            Ok(headers) => {
                &&& all_well_formed(line_texts(lines@))
                &&& headers.wf()
                &&& headers@ == header_map(
                    line_texts(lines@),
                    normal_names(line_texts(lines@)),
                )
            },
            Err(i) => first_malformed_at(line_texts(lines@), i as int),
        },
{
    let names = header_names(lines);
    bind_headers(lines, &names)
}

} // verus!
