//! UTF-16, as the system's calls want it.
use vstd::prelude::*;

use crate::string_map::StringMap;

verus! {

/// The UTF-16 code units of a character.
pub open spec fn units(c: char) -> Seq<u16> {
    let v = c as u32;
    if v < 0x1_0000 {
        seq![v as u16]
    } else {
        seq![
            (0xD800 + (v - 0x1_0000) / 0x400) as u16,
            (0xDC00 + (v - 0x1_0000) % 0x400) as u16,
        ]
    }
}

/// The UTF-16 code units of a text.
pub open spec fn utf16(s: Seq<char>) -> Seq<u16>
    decreases s.len(),
{
    if s.len() == 0 {
        Seq::empty()
    } else {
        utf16(s.drop_last()) + units(s.last())
    }
}

/// Appends the UTF-16 code units of `s` to `block`.
fn push_utf16(block: &mut Vec<u16>, s: &str)
    ensures
        final(block)@ == old(block)@ + utf16(s@),
{
    assert(s@.take(0) =~= Seq::<char>::empty());
    for c in it: s.chars()
        invariant
            it.seq() == s@,
            block@ == old(block)@ + utf16(s@.take(it.index() as int)),
    {
        let ghost i = it.index() as int;
        assert(c == s@[i]);
        assert(s@.take(i + 1).drop_last() =~= s@.take(i));
        assert(s@.take(i + 1).last() == c);
        let ghost before = block@;
        let v: u32 = c as u32;
        if v < 0x1_0000 {
            block.push(v as u16);
        } else {
            block.push((0xD800 + (v - 0x1_0000) / 0x400) as u16);
            block.push((0xDC00 + (v - 0x1_0000) % 0x400) as u16);
        }
        assert(block@ =~= before + units(c));
        assert(block@ =~= old(block)@ + utf16(s@.take(i + 1)));
    }
    assert(s@.take(s@.len() as int) =~= s@);
}

/// `s` in UTF-16, followed by a zero.
pub fn to_wide_null(s: &str) -> (v: Vec<u16>)
    ensures
        v@ == utf16(s@).push(0),
{
    let mut v: Vec<u16> = Vec::new();
    push_utf16(&mut v, s);
    v.push(0);
    assert(v@ =~= utf16(s@).push(0));
    v
}

/// The text of an environment variable.
pub open spec fn variable(entry: (Seq<char>, Seq<char>)) -> Seq<char> {
    entry.0 + "="@ + entry.1
}

/// The variables in UTF-16, each followed by a zero.
pub open spec fn variables(env: Seq<(Seq<char>, Seq<char>)>) -> Seq<u16>
    decreases env.len(),
{
    if env.len() == 0 {
        Seq::empty()
    } else {
        utf16(variable(env[0])).push(0) + variables(env.drop_first())
    }
}

/// An environment block: the variables in UTF-16, each followed by a zero, and a zero at the end.
pub fn build_env_block(env: &StringMap) -> (block: Vec<u16>)
    ensures
        block@ == variables(env@).push(0),
{
    let mut block: Vec<u16> = Vec::new();
    let mut i: usize = 0;
    assert(env@.skip(0) =~= env@);
    while i < env.len()
        invariant
            i <= env@.len(),
            block@ + variables(env@.skip(i as int)) == variables(env@),
        decreases env@.len() - i,
    {
        let ghost rest = env@.skip(i as int);
        let ghost before = block@;
        let mut entry = env.key(i).to_owned();
        entry.append("=");
        entry.append(env.value(i));
        assert(entry@ == variable(rest[0]));
        push_utf16(&mut block, entry.as_str());
        block.push(0);
        assert(rest.drop_first() =~= env@.skip(i + 1));
        assert(block@ =~= before + utf16(variable(rest[0])).push(0));
        assert(block@ + variables(env@.skip(i + 1)) =~= before + variables(rest));
        i += 1;
    }
    assert(env@.skip(i as int) =~= Seq::empty());
    assert(block@ =~= variables(env@));
    block.push(0);
    block
}

/// A code unit that starts a pair.
pub open spec fn is_high(u: u16) -> bool {
    0xD800 <= u < 0xDC00
}

/// A code unit that ends a pair.
pub open spec fn is_low(u: u16) -> bool {
    0xDC00 <= u < 0xE000
}

/// The character of a pair.
pub open spec fn paired(high: u16, low: u16) -> char {
    (0x1_0000 + (high - 0xD800) * 0x400 + (low - 0xDC00)) as char
}

/// The text that code units stand for, with U+FFFD for every unit of a broken pair.
pub open spec fn lossy(u: Seq<u16>) -> Seq<char>
    decreases u.len(),
{
    if u.len() == 0 {
        Seq::empty()
    } else if !is_high(u[0]) && !is_low(u[0]) {
        seq![u[0] as char] + lossy(u.drop_first())
    } else if is_high(u[0]) && u.len() > 1 && is_low(u[1]) {
        seq![paired(u[0], u[1])] + lossy(u.skip(2))
    } else {
        seq!['\u{FFFD}'] + lossy(u.drop_first())
    }
}

/// `char::from_u32` gives the character of a number that is one: at most 0x10FFFF, and not between
/// 0xD800 and 0xDFFF.
pub assume_specification[ char::from_u32 ](i: u32) -> (r: Option<char>)
    ensures
        r == (if i < 0xD800 || 0xE000 <= i <= 0x10_FFFF {
            Some(i as char)
        } else {
            None
        }),
;

/// The text that `u` stands for, with U+FFFD for every unit of a broken pair.
pub fn lossy_text(u: &[u16]) -> (s: String)
    ensures
        s@ == lossy(u@),
{
    let mut s = String::new();
    let mut i: usize = 0;
    assert(u@.skip(0) =~= u@);
    while i < u.len()
        invariant
            i <= u@.len(),
            s@ + lossy(u@.skip(i as int)) == lossy(u@),
        decreases u@.len() - i,
    {
        let ghost rest = u@.skip(i as int);
        let ghost before = s@;
        let a: u16 = u[i];
        assert(rest[0] == a);
        assert(rest.drop_first() =~= u@.skip(i + 1));
        if a < 0xD800 || a >= 0xE000 {
            if let Some(c) = char::from_u32(a as u32) {
                s.push(c);
            }
            assert(s@ + lossy(u@.skip(i + 1)) =~= before + lossy(rest));
            i += 1;
        } else if a < 0xDC00 && i + 1 < u.len() && 0xDC00 <= u[i + 1] && u[i + 1] < 0xE000 {
            let b: u16 = u[i + 1];
            assert(rest[1] == b);
            assert(rest.skip(2) =~= u@.skip(i + 2));
            let v: u32 = 0x1_0000 + (a as u32 - 0xD800) * 0x400 + (b as u32 - 0xDC00);
            if let Some(c) = char::from_u32(v) {
                s.push(c);
            }
            assert(s@ + lossy(u@.skip(i + 2)) =~= before + lossy(rest));
            i += 2;
        } else {
            s.push('\u{FFFD}');
            assert(s@ + lossy(u@.skip(i + 1)) =~= before + lossy(rest));
            i += 1;
        }
    }
    assert(u@.skip(i as int) =~= Seq::empty());
    assert(s@ =~= lossy(u@));
    s
}

/// `u` without the zeros at its end.
pub open spec fn trimmed(u: Seq<u16>) -> Seq<u16>
    decreases u.len(),
{
    if u.len() > 0 && u.last() == 0 {
        trimmed(u.drop_last())
    } else {
        u
    }
}

/// `u` without the zeros at its end.
pub fn without_trailing_zeros(u: Vec<u16>) -> (t: Vec<u16>)
    ensures
        t@ == trimmed(u@),
{
    let mut t = u;
    while t.len() > 0 && t[t.len() - 1] == 0
        invariant
            trimmed(t@) == trimmed(u@),
        decreases t@.len(),
    {
        t.pop();
    }
    t
}

proof fn lemma_utf16_front(s: Seq<char>)
    requires
        s.len() > 0,
    ensures
        utf16(s) == units(s[0]) + utf16(s.drop_first()),
    decreases s.len(),
{
    if s.len() == 1 {
        assert(s.drop_last() =~= Seq::empty());
        assert(s.drop_first() =~= Seq::empty());
        assert(utf16(s) =~= units(s[0]) + utf16(s.drop_first()));
    } else {
        let init = s.drop_last();
        lemma_utf16_front(init);
        assert(init.drop_first() =~= s.drop_first().drop_last());
        assert(s.drop_first().last() == s.last());
        assert(utf16(s) =~= units(s[0]) + utf16(s.drop_first()));
    }
}

/// The code units of a character say which it is.
proof fn lemma_units(c: char)
    ensures
        c as u32 <= 0x10_FFFF,
        (c as u32) < 0x1_0000 ==> units(c).len() == 1 && !is_high(units(c)[0]) && !is_low(
            units(c)[0],
        ) && units(c)[0] as char == c,
        (c as u32) >= 0x1_0000 ==> units(c).len() == 2 && is_high(units(c)[0]) && is_low(
            units(c)[1],
        ) && paired(units(c)[0], units(c)[1]) == c,
{
}

/// A text that is put into UTF-16 can be read back.
pub proof fn law_utf16_is_readable(s: Seq<char>)
    ensures
        lossy(utf16(s)) == s,
    decreases s.len(),
{
    if s.len() == 0 {
        assert(lossy(utf16(s)) =~= s);
    } else {
        let c = s[0];
        let rest = s.drop_first();
        lemma_utf16_front(s);
        law_utf16_is_readable(rest);
        let u = units(c) + utf16(rest);
        lemma_units(c);
        if (c as u32) < 0x1_0000 {
            assert(u[0] == units(c)[0]);
            assert(u.drop_first() =~= utf16(rest));
        } else {
            assert(u[0] == units(c)[0] && u[1] == units(c)[1]);
            assert(u.skip(2) =~= utf16(rest));
        }
        assert(lossy(u) =~= seq![c] + rest);
        assert(seq![c] + rest =~= s);
    }
}

/// No character of `s` is the zero character.
pub open spec fn zero_free(s: Seq<char>) -> bool {
    forall|i: int| 0 <= i < s.len() ==> #[trigger] s[i] != '\0'
}

/// Whether no character of `s` is the zero character.
pub fn is_zero_free(s: &str) -> (b: bool)
    ensures
        b == zero_free(s@),
{
    let mut b = true;
    for c in it: s.chars()
        invariant
            it.seq() == s@,
            b == forall|i: int| 0 <= i < it.index() ==> #[trigger] s@[i] != '\0',
    {
        assert(c == s@[it.index() as int]);
        b = b && c != '\0';
    }
    b
}

/// The index of the first zero in `u`, or its length where there is none.
pub open spec fn first_zero(u: Seq<u16>) -> int
    decreases u.len(),
{
    if u.len() == 0 || u[0] == 0 {
        0
    } else {
        1 + first_zero(u.drop_first())
    }
}

/// What a reader of an environment block finds in it: runs that end in a zero, up to an empty one.
pub open spec fn block_entries(u: Seq<u16>) -> Seq<Seq<u16>>
    decreases u.len(),
{
    if u.len() == 0 || u[0] == 0 || first_zero(u) >= u.len() {
        Seq::empty()
    } else {
        proof {
            lemma_first_zero_bounds(u);
        }
        seq![u.take(first_zero(u))] + block_entries(u.skip(first_zero(u) + 1))
    }
}

/// The first zero is found within the sequence, or at its end.
pub proof fn lemma_first_zero_bounds(u: Seq<u16>)
    ensures
        0 <= first_zero(u) <= u.len(),
    decreases u.len(),
{
    if u.len() > 0 && u[0] != 0 {
        lemma_first_zero_bounds(u.drop_first());
    }
}

proof fn lemma_utf16_zero_free(s: Seq<char>)
    requires
        zero_free(s),
    ensures
        forall|i: int| 0 <= i < utf16(s).len() ==> #[trigger] utf16(s)[i] != 0,
        s.len() > 0 ==> utf16(s).len() > 0,
    decreases s.len(),
{
    if s.len() > 0 {
        let init = s.drop_last();
        assert forall|i: int| 0 <= i < init.len() implies #[trigger] init[i] != '\0' by {
            assert(s[i] != '\0');
        }
        lemma_utf16_zero_free(init);
        let c = s.last();
        assert(s[s.len() - 1] != '\0');
        lemma_units(c);
        assert(forall|i: int| 0 <= i < units(c).len() ==> #[trigger] units(c)[i] != 0);
        assert forall|i: int| 0 <= i < utf16(s).len() implies #[trigger] utf16(s)[i] != 0 by {
            if i < utf16(init).len() {
                assert(utf16(s)[i] == utf16(init)[i]);
            } else {
                assert(utf16(s)[i] == units(c)[i - utf16(init).len()]);
            }
        }
    }
}

proof fn lemma_first_zero(u: Seq<u16>, rest: Seq<u16>)
    requires
        forall|i: int| 0 <= i < u.len() ==> #[trigger] u[i] != 0,
    ensures
        first_zero(u.push(0) + rest) == u.len(),
    decreases u.len(),
{
    let all = u.push(0) + rest;
    if u.len() > 0 {
        let shorter = u.drop_first();
        assert forall|i: int| 0 <= i < shorter.len() implies #[trigger] shorter[i] != 0 by {
            assert(u[i + 1] != 0);
        }
        lemma_first_zero(shorter, rest);
        assert(all.drop_first() =~= shorter.push(0) + rest);
        assert(all[0] == u[0]);
    } else {
        assert(all[0] == 0);
    }
}

/// Whoever reads an environment block finds in it the variables it was built from, in order, as
/// long as none of them holds a zero.
pub proof fn law_env_block_is_readable(env: Seq<(Seq<char>, Seq<char>)>)
    requires
        forall|i: int| 0 <= i < env.len() ==> zero_free(variable(#[trigger] env[i])),
    ensures
        block_entries(variables(env).push(0)) == env.map_values(
            |e: (Seq<char>, Seq<char>)| utf16(variable(e)),
        ),
    decreases env.len(),
{
    let block = variables(env).push(0);
    let texts = env.map_values(|e: (Seq<char>, Seq<char>)| utf16(variable(e)));
    if env.len() == 0 {
        assert(block[0] == 0);
        assert(block_entries(block) =~= texts);
    } else {
        let rest = env.drop_first();
        assert forall|i: int| 0 <= i < rest.len() implies zero_free(variable(#[trigger] rest[i])) by {
            assert(zero_free(variable(env[i + 1])));
        }
        law_env_block_is_readable(rest);
        let first = utf16(variable(env[0]));
        let later = variables(rest).push(0);
        reveal_strlit("=");
        assert(variable(env[0]).len() > 0);
        lemma_utf16_zero_free(variable(env[0]));
        lemma_first_zero(first, later);
        assert(block =~= first.push(0) + later);
        assert(block[0] == first[0]);
        assert(block.take(first.len() as int) =~= first);
        assert(block.skip(first.len() as int + 1) =~= later);
        assert(rest.map_values(|e: (Seq<char>, Seq<char>)| utf16(variable(e)))
            =~= texts.drop_first());
        assert(block_entries(block) =~= texts);
    }
}

/// A character at the end of a text adds the unit of its code where that fits into one. Otherwise it
/// adds a pair, which together stand for how far its code is above 0xFFFF, ten bits in each.
pub proof fn law_utf16_of_one_more(s: Seq<char>, c: char)
    ensures
        utf16(Seq::empty()) == Seq::<u16>::empty(),
        c as int <= 0xFFFF ==> utf16(s.push(c)).len() == utf16(s).len() + 1 && utf16(
            s.push(c),
        ).last() == c as int,
        c as int > 0xFFFF ==> utf16(s.push(c)).len() == utf16(s).len() + 2 && ({
            let high = utf16(s.push(c))[utf16(s).len() as int] as int;
            let low = utf16(s.push(c)).last() as int;
            &&& 0xD800 <= high <= 0xDBFF
            &&& 0xDC00 <= low <= 0xDFFF
            &&& c as int == 0x1_0000 + (high - 0xD800) * 1024 + (low - 0xDC00)
        }),
        utf16(s.push(c)).take(utf16(s).len() as int) == utf16(s),
{
    assert(s.push(c).drop_last() =~= s);
    lemma_units(c);
    assert(utf16(s.push(c)).take(utf16(s).len() as int) =~= utf16(s));
}

/// Texts that are put one after the other are so in UTF-16 too.
pub proof fn law_utf16_of_two(a: Seq<char>, b: Seq<char>)
    ensures
        utf16(a + b) == utf16(a) + utf16(b),
    decreases b.len(),
{
    if b.len() == 0 {
        assert(a + b =~= a);
        assert(utf16(a) + utf16(b) =~= utf16(a));
    } else {
        assert((a + b).drop_last() =~= a + b.drop_last());
        law_utf16_of_two(a, b.drop_last());
        assert(utf16(a + b) =~= utf16(a) + utf16(b));
    }
}

/// How code units are read: one that is no half of a pair is the character of its number; a first
/// half and a second one are the character of the pair; a half that stands alone is U+FFFD, and what
/// comes after it is read on its own.
pub proof fn law_lossy(a: u16, b: u16, rest: Seq<u16>)
    ensures
        lossy(Seq::empty()) == Seq::<char>::empty(),
        !(0xD800 <= a <= 0xDFFF) ==> lossy(seq![a] + rest) == seq![a as char] + lossy(rest),
        0xD800 <= a <= 0xDBFF && 0xDC00 <= b <= 0xDFFF ==> lossy(seq![a, b] + rest) == seq![
            (0x1_0000 + (a - 0xD800) * 1024 + (b - 0xDC00)) as char,
        ] + lossy(rest),
        0xDC00 <= a <= 0xDFFF ==> lossy(seq![a] + rest) == seq!['\u{FFFD}'] + lossy(rest),
        0xD800 <= a <= 0xDBFF && (rest.len() == 0 || !(0xDC00 <= rest[0] <= 0xDFFF)) ==> lossy(
            seq![a] + rest,
        ) == seq!['\u{FFFD}'] + lossy(rest),
{
    assert((seq![a] + rest).drop_first() =~= rest);
    assert((seq![a, b] + rest).skip(2) =~= rest);
}

/// Zeros at the end are left out, however many there are, and nothing else is.
pub proof fn law_trimmed(u: Seq<u16>)
    ensures
        trimmed(u).len() <= u.len(),
        trimmed(u) == u.take(trimmed(u).len() as int),
        forall|i: int| trimmed(u).len() <= i < u.len() ==> #[trigger] u[i] == 0,
        trimmed(u).len() > 0 ==> trimmed(u).last() != 0,
    decreases u.len(),
{
    if u.len() > 0 && u.last() == 0 {
        let init = u.drop_last();
        law_trimmed(init);
        assert(trimmed(u) =~= u.take(trimmed(u).len() as int));
        assert forall|i: int| trimmed(u).len() <= i < u.len() implies #[trigger] u[i] == 0 by {
            if i < init.len() {
                assert(init[i] == u[i]);
            }
        }
    } else {
        assert(u.take(u.len() as int) =~= u);
    }
}

/// A text is free of zeros where it does not hold the character 0.
pub proof fn law_zero_free(s: Seq<char>)
    ensures
        zero_free(s) <==> !s.contains('\0'),
{
    if !zero_free(s) {
        let i = choose|i: int| 0 <= i < s.len() && s[i] == '\0';
        assert(s.contains('\0'));
    }
}

/// Each variable stands in a block as its name, an equals sign, its value and a zero, in order.
pub proof fn law_variables(
    before: Seq<(Seq<char>, Seq<char>)>,
    name: Seq<char>,
    value: Seq<char>,
)
    ensures
        variables(Seq::empty()) == Seq::<u16>::empty(),
        variables(before.push((name, value))) == variables(before) + utf16(name) + seq!['=' as u16]
            + utf16(value) + seq![0u16],
    decreases before.len(),
{
    reveal_strlit("=");
    let entry = (name, value);
    let tail = utf16(name) + seq!['=' as u16] + utf16(value) + seq![0u16];
    if before.len() == 0 {
        let one = before.push(entry);
        reveal_with_fuel(variables, 2);
        reveal_with_fuel(utf16, 2);
        assert(one.drop_first() =~= Seq::<(Seq<char>, Seq<char>)>::empty());
        law_utf16_of_two(name + "="@, value);
        law_utf16_of_two(name, "="@);
        assert("="@ =~= seq!['=']);
        assert(seq!['='].drop_last() =~= Seq::<char>::empty());
        assert(utf16("="@) =~= seq!['=' as u16]);
        assert(variables(one) =~= tail);
        assert(variables(before) + utf16(name) + seq!['=' as u16] + utf16(value) + seq![0u16]
            =~= tail);
    } else {
        let rest = before.drop_first();
        law_variables(rest, name, value);
        assert(before.push(entry).drop_first() =~= rest.push(entry));
        assert(before.push(entry)[0] == before[0]);
        assert(variables(before.push(entry)) =~= variables(before) + utf16(name) + seq!['=' as u16]
            + utf16(value) + seq![0u16]);
    }
}

/// A text without zeros that is followed by zeros is read back without them.
pub(crate) proof fn lemma_padded(s: Seq<char>, zeros: Seq<u16>)
    requires
        forall|i: int| 0 <= i < zeros.len() ==> #[trigger] zeros[i] == 0,
        !s.contains('\0'),
    ensures
        lossy(trimmed(utf16(s) + zeros)) == s,
{
    let u = utf16(s);
    let all = u + zeros;
    let t = trimmed(all);
    law_trimmed(all);
    law_zero_free(s);
    lemma_utf16_zero_free(s);
    if t.len() < u.len() {
        assert(all[u.len() - 1] == 0);
        assert(u[u.len() - 1] != 0);
    }
    if t.len() > u.len() {
        assert(t.last() == all[t.len() - 1]);
        assert(zeros[t.len() - 1 - u.len()] == 0);
    }
    assert(t =~= u);
    law_utf16_is_readable(s);
}

} // verus!
