//! Text as the hooks need it: numbers in decimal, lists with a separator, and
//! names without dots.
use vstd::prelude::*;

verus! {

/// `String::push` of std appends one character to the end of the string. Its
/// contract says just that.
pub assume_specification[ String::push ](s: &mut String, c: char)
    ensures
        final(s)@ == old(s)@.push(c),
;

/// The decimal digit of a number below ten.
pub open spec fn digit(d: nat) -> char {
    if d == 0 {
        '0'
    } else if d == 1 {
        '1'
    } else if d == 2 {
        '2'
    } else if d == 3 {
        '3'
    } else if d == 4 {
        '4'
    } else if d == 5 {
        '5'
    } else if d == 6 {
        '6'
    } else if d == 7 {
        '7'
    } else if d == 8 {
        '8'
    } else {
        '9'
    }
}

/// A number in decimal, without leading zeros.
pub open spec fn decimal(n: nat) -> Seq<char>
    decreases n,
{
    if n < 10 {
        seq![digit(n)]
    } else {
        decimal(n / 10).push(digit(n % 10))
    }
}

/// The parts in order, with the separator between each two neighbours.
pub open spec fn join(parts: Seq<Seq<char>>, separator: Seq<char>) -> Seq<char>
    decreases parts.len(),
{
    if parts.len() == 0 {
        Seq::empty()
    } else {
        let gap = if parts.len() == 1 {
            Seq::empty()
        } else {
            separator
        };
        join(parts.drop_last(), separator) + gap + parts.last()
    }
}

/// The name with an underscore for each dot.
pub open spec fn undotted(name: Seq<char>) -> Seq<char> {
    name.map_values(
        |c: char|
            if c == '.' {
                '_'
            } else {
                c
            },
    )
}

/// The views of a list of strings.
pub open spec fn texts(strings: Seq<String>) -> Seq<Seq<char>> {
    strings.map_values(|s: String| s@)
}

/// A number in decimal ends with its last digit.
pub proof fn lemma_decimal_last(n: nat)
    ensures
        decimal(n).len() > 0,
        decimal(n).last() == digit(n % 10),
{
}

/// Different numbers are written differently.
pub proof fn lemma_decimal_injective(a: nat, b: nat)
    requires
        decimal(a) == decimal(b),
    ensures
        a == b,
    decreases a + b,
{
    lemma_decimal_last(a);
    lemma_decimal_last(b);
    assert(a % 10 == b % 10);
    if a >= 10 {
        lemma_decimal_last(a / 10);
        assert(decimal(a).drop_last() =~= decimal(a / 10));
    }
    if b >= 10 {
        lemma_decimal_last(b / 10);
        assert(decimal(b).drop_last() =~= decimal(b / 10));
    }
    if a >= 10 && b >= 10 {
        lemma_decimal_injective(a / 10, b / 10);
    }
}

fn to_digit(d: usize) -> (c: char)
    requires
        d < 10,
    ensures
        c == digit(d as nat),
{
    match d {
        0 => '0',
        1 => '1',
        2 => '2',
        3 => '3',
        4 => '4',
        5 => '5',
        6 => '6',
        7 => '7',
        8 => '8',
        _ => '9',
    }
}

/// Writes a number in decimal.
pub fn to_decimal(n: usize) -> (text: String)
    ensures
        text@ == decimal(n as nat),
    decreases n,
{
    let mut text = if n < 10 {
        String::new()
    } else {
        to_decimal(n / 10)
    };
    text.push(to_digit(n % 10));
    text
}

/// Joins strings with a separator between each two neighbours.
pub fn join_strings(parts: &Vec<String>, separator: &str) -> (joined: String)
    ensures
        joined@ == join(texts(parts@), separator@),
{
    let mut joined = String::new();
    let mut i: usize = 0;
    while i < parts.len()
        invariant
            i <= parts.len(),
            joined@ == join(texts(parts@.take(i as int)), separator@),
        decreases parts.len() - i,
    {
        if i > 0 {
            joined.append(separator);
        }
        joined.append(parts[i].as_str());
        proof {
            let longer = texts(parts@.take(i + 1));
            assert(longer.drop_last() =~= texts(parts@.take(i as int)));
            assert(longer.last() == parts@[i as int]@);
        }
        i += 1;
    }
    assert(parts@.take(i as int) =~= parts@);
    joined
}

/// Puts an underscore in place of each dot of a name.
pub fn replace_dots(name: &str) -> (plain: String)
    ensures
        plain@ == undotted(name@),
{
    let mut plain = String::new();
    for c in iter: name.chars()
        invariant
            iter.seq() == name@,
            plain@ == undotted(name@.take(iter.index() as int)),
    {
        let ghost before = name@.take(iter.index() as int);
        plain.push(if c == '.' { '_' } else { c });
        assert(name@.take(iter.index() + 1) =~= before.push(c));
        assert(undotted(before.push(c)) =~= undotted(before).push(if c == '.' { '_' } else { c }));
    }
    assert(name@.take(name@.len() as int) =~= name@);
    plain
}

} // verus!
