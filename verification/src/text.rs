//! Character-level helpers on strings: prefixes, whitespace trimming and
//! decimal numerals. Contracts are stated over `Seq<char>`.

use vstd::prelude::*;

verus! {

/// Whether `c` carries the Unicode property `White_Space`.
pub open spec fn is_space(c: char) -> bool {
    let u = c as u32;
    ||| 0x09 <= u <= 0x0D
    ||| u == 0x20
    ||| u == 0x85
    ||| u == 0xA0
    ||| u == 0x1680
    ||| 0x2000 <= u <= 0x200A
    ||| u == 0x2028
    ||| u == 0x2029
    ||| u == 0x202F
    ||| u == 0x205F
    ||| u == 0x3000
}

/// `s` without its leading whitespace.
pub open spec fn trim_start(s: Seq<char>) -> Seq<char>
    decreases s.len(),
{
    if s.len() > 0 && is_space(s[0]) {
        trim_start(s.drop_first())
    } else {
        s
    }
}

/// `s` without its trailing whitespace.
pub open spec fn trim_end(s: Seq<char>) -> Seq<char>
    decreases s.len(),
{
    if s.len() > 0 && is_space(s.last()) {
        trim_end(s.drop_last())
    } else {
        s
    }
}

/// `s` without leading and trailing whitespace.
pub open spec fn trimmed(s: Seq<char>) -> Seq<char> {
    trim_end(trim_start(s))
}

/// Whether every character of `s` is whitespace.
pub open spec fn all_space(s: Seq<char>) -> bool {
    forall|i: int| 0 <= i < s.len() ==> is_space(#[trigger] s[i])
}

/// Whitespace in front of a text is trimmed away with the text's own.
pub proof fn lemma_trim_start_drops_space_in_front(space: Seq<char>, s: Seq<char>)
    requires
        all_space(space),
    ensures
        trim_start(space + s) == trim_start(s),
    decreases space.len(),
{
    if space.len() == 0 {
        assert(space + s =~= s);
    } else {
        assert((space + s)[0] == space[0]);
        assert((space + s).drop_first() =~= space.drop_first() + s);
        assert forall|i: int| 0 <= i < space.drop_first().len() implies is_space(
            #[trigger] space.drop_first()[i],
        ) by {
            assert(space.drop_first()[i] == space[i + 1]);
        }
        lemma_trim_start_drops_space_in_front(space.drop_first(), s);
    }
}

/// Whitespace behind a text is trimmed away with the text's own.
pub proof fn lemma_trim_end_drops_space_behind(s: Seq<char>, space: Seq<char>)
    requires
        all_space(space),
    ensures
        trim_end(s + space) == trim_end(s),
    decreases space.len(),
{
    if space.len() == 0 {
        assert(s + space =~= s);
    } else {
        assert((s + space).last() == space.last());
        assert((s + space).drop_last() =~= s + space.drop_last());
        assert forall|i: int| 0 <= i < space.drop_last().len() implies is_space(
            #[trigger] space.drop_last()[i],
        ) by {
            assert(space.drop_last()[i] == space[i]);
        }
        lemma_trim_end_drops_space_behind(s, space.drop_last());
    }
}

/// Trimming the start of a text leaves what follows its first character
/// that is no whitespace untouched; of whitespace alone nothing is left.
pub proof fn lemma_trim_start_keeps_what_follows(s: Seq<char>, rest: Seq<char>)
    ensures
        all_space(s) ==> trim_start(s) == Seq::<char>::empty(),
        !all_space(s) ==> trim_start(s + rest) == trim_start(s) + rest,
    decreases s.len(),
{
    if s.len() == 0 {
        assert(trim_start(s) =~= Seq::empty());
    } else if is_space(s[0]) {
        let tail = s.drop_first();
        assert((s + rest)[0] == s[0]);
        assert((s + rest).drop_first() =~= tail + rest);
        lemma_trim_start_keeps_what_follows(tail, rest);
        if all_space(s) {
            assert forall|i: int| 0 <= i < tail.len() implies is_space(#[trigger] tail[i]) by {
                assert(tail[i] == s[i + 1]);
            }
        } else {
            let k = choose|k: int| 0 <= k < s.len() && !is_space(#[trigger] s[k]);
            assert(tail[k - 1] == s[k]);
        }
    } else {
        assert((s + rest)[0] == s[0]);
    }
}

/// Whitespace around a text does not change what trimming leaves of it.
pub proof fn lemma_trimmed_ignores_space_around(
    front: Seq<char>,
    s: Seq<char>,
    behind: Seq<char>,
)
    requires
        all_space(front),
        all_space(behind),
    ensures
        trimmed(front + s + behind) == trimmed(s),
{
    assert(front + s + behind =~= front + (s + behind));
    lemma_trim_start_drops_space_in_front(front, s + behind);
    lemma_trim_start_keeps_what_follows(s, behind);
    if all_space(s) {
        assert forall|i: int| 0 <= i < (s + behind).len() implies is_space(
            #[trigger] (s + behind)[i],
        ) by {
            if i < s.len() {
                assert((s + behind)[i] == s[i]);
            } else {
                assert((s + behind)[i] == behind[i - s.len()]);
            }
        }
        lemma_trim_start_keeps_what_follows(s + behind, Seq::empty());
    } else {
        lemma_trim_end_drops_space_behind(trim_start(s), behind);
    }
}

/// What trimming leaves of a text is a stretch of it, with nothing but
/// whitespace in front of it and behind it.
pub proof fn lemma_trimmed_is_a_stretch(s: Seq<char>) -> (bounds: (int, int))
    ensures
        0 <= bounds.0 <= bounds.1 <= s.len(),
        trimmed(s) == s.subrange(bounds.0, bounds.1),
        all_space(s.take(bounds.0)),
        all_space(s.skip(bounds.1)),
{
    let from = lemma_trim_start_is_a_tail(s);
    let tail = s.skip(from);
    let to = lemma_trim_end_is_a_head(tail);
    assert(tail.take(to) =~= s.subrange(from, from + to));
    assert forall|i: int| 0 <= i < s.skip(from + to).len() implies is_space(
        #[trigger] s.skip(from + to)[i],
    ) by {
        assert(s.skip(from + to)[i] == tail.skip(to)[i]);
    }
    (from, from + to)
}

/// What trimming the start leaves of a text is a tail of it, with nothing
/// but whitespace in front.
pub proof fn lemma_trim_start_is_a_tail(s: Seq<char>) -> (from: int)
    ensures
        0 <= from <= s.len(),
        trim_start(s) == s.skip(from),
        all_space(s.take(from)),
    decreases s.len(),
{
    if s.len() > 0 && is_space(s[0]) {
        let inner = lemma_trim_start_is_a_tail(s.drop_first());
        assert(s.drop_first().skip(inner) =~= s.skip(inner + 1));
        assert forall|i: int| 0 <= i < s.take(inner + 1).len() implies is_space(
            #[trigger] s.take(inner + 1)[i],
        ) by {
            if i > 0 {
                assert(s.take(inner + 1)[i] == s.drop_first().take(inner)[i - 1]);
            }
        }
        inner + 1
    } else {
        assert(s.skip(0) =~= s);
        0
    }
}

/// What trimming the end leaves of a text is a head of it, with nothing
/// but whitespace behind.
pub proof fn lemma_trim_end_is_a_head(s: Seq<char>) -> (to: int)
    ensures
        0 <= to <= s.len(),
        trim_end(s) == s.take(to),
        all_space(s.skip(to)),
    decreases s.len(),
{
    if s.len() > 0 && is_space(s.last()) {
        let inner = lemma_trim_end_is_a_head(s.drop_last());
        assert(s.drop_last().take(inner) =~= s.take(inner));
        assert forall|i: int| 0 <= i < s.skip(inner).len() implies is_space(
            #[trigger] s.skip(inner)[i],
        ) by {
            if i < s.skip(inner).len() - 1 {
                assert(s.skip(inner)[i] == s.drop_last().skip(inner)[i]);
            }
        }
        inner
    } else {
        assert(s.take(s.len() as int) =~= s);
        s.len() as int
    }
}

/// The decimal digit for `d`, where `d < 10`.
pub open spec fn digit(d: nat) -> char {
    if d == 0 {
        '0'
    } else if d == 1 {
        '1'
    } else if d == 2 {
        '2'
    } else if d == 3 {
        '3'
    } else if d == 4 {
        '4'
    } else if d == 5 {
        '5'
    } else if d == 6 {
        '6'
    } else if d == 7 {
        '7'
    } else if d == 8 {
        '8'
    } else {
        '9'
    }
}

/// The decimal numeral of `n`, without leading zeros.
pub open spec fn decimal(n: nat) -> Seq<char>
    decreases n,
{
    if n < 10 {
        seq![digit(n)]
    } else {
        decimal(n / 10).push(digit(n % 10))
    }
}

/// The characters of `text`, in order.
pub fn chars_of(text: &str) -> (chars: Vec<char>)
    ensures
        chars@ == text@,
{
    let mut chars: Vec<char> = Vec::new();
    for c in it: text.chars()
        invariant
            chars@ == it.seq().take(it.index()),
    {
        chars.push(c);
    }
    chars
}

/// Whether `text` begins with the characters of `prefix`.
pub fn has_prefix(text: &str, prefix: &str) -> (found: bool)
    ensures
        found == prefix@.is_prefix_of(text@),
{
    let t = chars_of(text);
    let p = chars_of(prefix);
    if t.len() < p.len() {
        return false;
    }
    let mut i: usize = 0;
    while i < p.len()
        invariant
            i <= p.len() <= t.len(),
            t@ == text@,
            p@ == prefix@,
            forall|k: int| 0 <= k < i ==> t@[k] == p@[k],
        decreases p.len() - i,
    {
        if t[i] != p[i] {
            assert(t@.subrange(0, p.len() as int)[i as int] != p@[i as int]);
            return false;
        }
        i += 1;
    }
    assert(t@.subrange(0, p.len() as int) =~= p@);
    true
}

/// Whether `c` is whitespace.
pub fn char_is_space(c: char) -> (b: bool)
    ensures
        b == is_space(c),
{
    let u: u32 = c as u32;
    (0x09 <= u && u <= 0x0D) || u == 0x20 || u == 0x85 || u == 0xA0 || u == 0x1680 || (0x2000
        <= u && u <= 0x200A) || u == 0x2028 || u == 0x2029 || u == 0x202F || u == 0x205F || u
        == 0x3000
}

/// The part of `text` that remains once leading and trailing whitespace
/// is removed.
pub fn trim(text: &str) -> (kept: &str)
    ensures
        kept@ == trimmed(text@),
{
    let chars = chars_of(text);
    let n: usize = chars.len();
    let mut start: usize = 0;
    assert(chars@.skip(0) =~= chars@);
    while start < n && char_is_space(chars[start])
        invariant
            start <= n == chars@.len(),
            trim_start(chars@) == trim_start(chars@.skip(start as int)),
        decreases n - start,
    {
        assert(chars@.skip(start as int).drop_first() =~= chars@.skip(start + 1));
        start += 1;
    }
    let mut end: usize = n;
    while end > start && char_is_space(chars[end - 1])
        invariant
            start <= end <= n == chars@.len(),
            trim_start(chars@) == chars@.skip(start as int),
            trimmed(chars@) == trim_end(chars@.subrange(start as int, end as int)),
        decreases end - start,
    {
        assert(chars@.subrange(start as int, end as int).drop_last() =~= chars@.subrange(
            start as int,
            end - 1,
        ));
        end -= 1;
    }
    text.substring_char(start, end)
}

/// The one-character text of the decimal digit `d`.
fn digit_text(d: u8) -> (text: &'static str)
    requires
        d < 10,
    ensures
        text@ == seq![digit(d as nat)],
{
    proof {
        reveal_strlit("0");
        reveal_strlit("1");
        reveal_strlit("2");
        reveal_strlit("3");
        reveal_strlit("4");
        reveal_strlit("5");
        reveal_strlit("6");
        reveal_strlit("7");
        reveal_strlit("8");
        reveal_strlit("9");
    }
    let text = if d == 0 {
        "0"
    } else if d == 1 {
        "1"
    } else if d == 2 {
        "2"
    } else if d == 3 {
        "3"
    } else if d == 4 {
        "4"
    } else if d == 5 {
        "5"
    } else if d == 6 {
        "6"
    } else if d == 7 {
        "7"
    } else if d == 8 {
        "8"
    } else {
        "9"
    };
    assert(text@ =~= seq![digit(d as nat)]);
    text
}

/// Writes `n` as a decimal numeral.
pub fn decimal_text(n: u128) -> (text: String)
    ensures
        text@ == decimal(n as nat),
    decreases n,
{
    if n < 10 {
        String::from_str(digit_text(n as u8))
    } else {
        let head = decimal_text(n / 10);
        let last = digit_text((n % 10) as u8);
        assert(seq![digit((n % 10) as nat)] =~= Seq::empty().push(digit((n % 10) as nat)));
        assert(decimal((n / 10) as nat) + seq![digit((n % 10) as nat)] =~= decimal(
            (n / 10) as nat,
        ).push(digit((n % 10) as nat)));
        head.concat(last)
    }
}

} // verus!
