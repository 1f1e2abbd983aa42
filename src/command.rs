use vstd::prelude::*;

verus! {

/// One line of input, as the command loop understands it.
#[derive(Clone, Copy, Debug, PartialEq, Eq, Structural)]
pub enum Command {
    /// `a <n>`: allocate `n` bytes and track them.
    Allocate(usize),
    /// `d`: release the most recently tracked block, if any.
    Deallocate,
    /// `v`: redraw without changing anything.
    Redraw,
    /// `q`: release every tracked block and stop.
    Quit,
    /// `a` with a missing or malformed byte count; nothing changes.
    ParseError,
    /// Anything else; nothing changes.
    Invalid,
}

/// Whether `c` separates words: the characters with the Unicode `White_Space` property.
pub open spec fn is_space(c: char) -> bool {
    let u = c as u32;
    (0x09 <= u && u <= 0x0D) || u == 0x20 || u == 0x85 || u == 0xA0 || u == 0x1680 || (0x2000
        <= u && u <= 0x200A) || u == 0x2028 || u == 0x2029 || u == 0x202F || u == 0x205F || u
        == 0x3000
}

/// First position at or after `i` that holds no white space (or the end of `s`).
pub open spec fn skip_space(s: Seq<char>, i: int) -> int
    decreases s.len() - i,
{
    if 0 <= i < s.len() && is_space(s[i]) {
        skip_space(s, i + 1)
    } else {
        i
    }
}

/// First position at or after `i` that holds white space (or the end of `s`).
pub open spec fn word_end(s: Seq<char>, i: int) -> int
    decreases s.len() - i,
{
    if 0 <= i < s.len() && !is_space(s[i]) {
        word_end(s, i + 1)
    } else {
        i
    }
}

/// The first word of `s`, empty when `s` is blank.
pub open spec fn first_word(s: Seq<char>) -> Seq<char> {
    let a = skip_space(s, 0);
    s.subrange(a, word_end(s, a))
}

/// The second word of `s`, empty when `s` has fewer than two.
pub open spec fn second_word(s: Seq<char>) -> Seq<char> {
    let b = word_end(s, skip_space(s, 0));
    let c = skip_space(s, b);
    s.subrange(c, word_end(s, c))
}

/// Whether every character of `d` is an ASCII decimal digit.
pub open spec fn all_digits(d: Seq<char>) -> bool {
    forall|i: int| 0 <= i < d.len() ==> '0' as u32 <= #[trigger] d[i] as u32 <= '9' as u32
}

/// Value of the digit `c`.
pub open spec fn digit_value(c: char) -> int {
    c as u32 - '0' as u32
}

/// Value of the decimal numeral `d`, most significant digit first.
pub open spec fn decimal_value(d: Seq<char>) -> int
    decreases d.len(),
{
    if d.len() == 0 {
        0
    } else {
        decimal_value(d.drop_last()) * 10 + digit_value(d.last())
    }
}

/// The digits of a byte count: the word without one leading `+`.
pub open spec fn size_digits(t: Seq<char>) -> Seq<char> {
    if t.len() > 0 && t[0] == '+' {
        t.drop_first()
    } else {
        t
    }
}

/// The byte count that `t` spells: one or more decimal digits, optionally after a `+`,
/// whose value fits in a `usize`.
pub open spec fn size_of_word(t: Seq<char>) -> Option<usize> {
    let d = size_digits(t);
    if d.len() > 0 && all_digits(d) && decimal_value(d) <= usize::MAX {
        Some(decimal_value(d) as usize)
    } else {
        None
    }
}

/// The command that the line `s` gives.
pub open spec fn command_of(s: Seq<char>) -> Command {
    let w = first_word(s);
    if w == seq!['a'] {
        match size_of_word(second_word(s)) {
            Some(n) => Command::Allocate(n),
            None => Command::ParseError,
        }
    } else if w == seq!['d'] {
        Command::Deallocate
    } else if w == seq!['v'] {
        Command::Redraw
    } else if w == seq!['q'] {
        Command::Quit
    } else {
        Command::Invalid
    }
}

/// Whether the display must be redrawn after `c`.
pub open spec fn marks_dirty(c: Command) -> bool {
    match c {
        Command::Allocate(_) | Command::Deallocate | Command::Redraw => true,
        _ => false,
    }
}

impl Command {
    /// Whether the display must be redrawn once this command has been carried out.
    /// An allocation, a deallocation (even of nothing) and a redraw request do;
    /// a rejected line and the quit command do not.
    pub fn marks_dirty(&self) -> (r: bool)
        ensures
            r == marks_dirty(*self),
    {
        match self {
            Command::Allocate(_) | Command::Deallocate | Command::Redraw => true,
            _ => false,
        }
    }
}

fn is_space_char(c: char) -> (r: bool)
    ensures
        r == is_space(c),
{
    let u = c as u32;
    (0x09 <= u && u <= 0x0D) || u == 0x20 || u == 0x85 || u == 0xA0 || u == 0x1680 || (0x2000
        <= u && u <= 0x200A) || u == 0x2028 || u == 0x2029 || u == 0x202F || u == 0x205F || u
        == 0x3000
}

fn chars_of(line: &str) -> (r: Vec<char>)
    ensures
        r@ == line@,
{
    let n = line.unicode_len();
    let mut v: Vec<char> = Vec::new();
    let mut i: usize = 0;
    while i < n
        invariant
            n == line@.len(),
            i <= n,
            v@ == line@.subrange(0, i as int),
        decreases n - i,
    {
        v.push(line.get_char(i));
        i = i + 1;
        assert(v@ =~= line@.subrange(0, i as int));
    }
    assert(v@ =~= line@);
    v
}

fn skip_space_from(v: &Vec<char>, start: usize) -> (r: usize)
    requires
        start <= v@.len(),
    ensures
        r == skip_space(v@, start as int),
        start <= r <= v@.len(),
{
    let mut i = start;
    while i < v.len() && is_space_char(v[i])
        invariant
            start <= i <= v@.len(),
            skip_space(v@, i as int) == skip_space(v@, start as int),
        decreases v@.len() - i,
    {
        i = i + 1;
    }
    i
}

fn word_end_from(v: &Vec<char>, start: usize) -> (r: usize)
    requires
        start <= v@.len(),
    ensures
        r == word_end(v@, start as int),
        start <= r <= v@.len(),
{
    let mut i = start;
    while i < v.len() && !is_space_char(v[i])
        invariant
            start <= i <= v@.len(),
            word_end(v@, i as int) == word_end(v@, start as int),
        decreases v@.len() - i,
    {
        i = i + 1;
    }
    i
}

proof fn lemma_prefix_value_le(d: Seq<char>, k: int)
    requires
        0 <= k <= d.len(),
        all_digits(d),
    ensures
        0 <= decimal_value(d.subrange(0, k)) <= decimal_value(d),
    decreases d.len(),
{
    if k < d.len() {
        let p = d.drop_last();
        assert(all_digits(p)) by {
            assert forall|i: int| 0 <= i < p.len() implies '0' as u32 <= #[trigger] p[i] as u32
                <= '9' as u32 by {
                assert(p[i] == d[i]);
            }
        }
        lemma_prefix_value_le(p, k);
        assert(p.subrange(0, k) =~= d.subrange(0, k));
        assert('0' as u32 <= d[d.len() - 1] as u32);
    } else {
        assert(d.subrange(0, k) =~= d);
        if d.len() > 0 {
            lemma_prefix_value_le(d.drop_last(), d.len() - 1);
            assert(d.drop_last().subrange(0, d.len() - 1) =~= d.drop_last());
            assert('0' as u32 <= d[d.len() - 1] as u32);
        }
    }
}

fn parse_size(v: &Vec<char>, start: usize, end: usize) -> (r: Option<usize>)
    requires
        start <= end <= v@.len(),
    ensures
        r == size_of_word(v@.subrange(start as int, end as int)),
{
    let ghost t = v@.subrange(start as int, end as int);
    let mut ds = start;
    if ds < end && v[ds] == '+' {
        ds = ds + 1;
    }
    let ghost d = v@.subrange(ds as int, end as int);
    assert(size_digits(t) =~= d);
    if ds == end {
        return None;
    }
    let mut i = ds;
    while i < end
        invariant
            ds <= i <= end <= v@.len(),
            d == v@.subrange(ds as int, end as int),
            size_digits(t) == d,
            t == v@.subrange(start as int, end as int),
            all_digits(v@.subrange(ds as int, i as int)),
        decreases end - i,
    {
        let u = v[i] as u32;
        if u < '0' as u32 || u > '9' as u32 {
            assert(d[i - ds] == v@[i as int]);
            return None;
        }
        i = i + 1;
        assert(all_digits(v@.subrange(ds as int, i as int))) by {
            let p = v@.subrange(ds as int, i as int);
            assert forall|k: int| 0 <= k < p.len() implies '0' as u32 <= #[trigger] p[k] as u32
                <= '9' as u32 by {
                if k < p.len() - 1 {
                    assert(p[k] == v@.subrange(ds as int, i - 1)[k]);
                }
            }
        }
    }
    assert(v@.subrange(ds as int, end as int) =~= d);
    let mut acc: usize = 0;
    let mut j = ds;
    while j < end
        invariant
            ds <= j <= end <= v@.len(),
            d == v@.subrange(ds as int, end as int),
            size_digits(t) == d,
            t == v@.subrange(start as int, end as int),
            d.len() > 0,
            all_digits(d),
            acc as int == decimal_value(v@.subrange(ds as int, j as int)),
        decreases end - j,
    {
        let ghost p = v@.subrange(ds as int, j as int + 1);
        assert(p.drop_last() =~= v@.subrange(ds as int, j as int));
        assert(p =~= d.subrange(0, j - ds + 1));
        assert(d[j - ds] == v@[j as int]);
        let digit = v[j] as u32 - '0' as u32;
        assert(p.last() == v@[j as int]);
        assert(decimal_value(p) == decimal_value(p.drop_last()) * 10 + digit_value(p.last()));
        match acc.checked_mul(10) {
            Some(m) => match m.checked_add(digit as usize) {
                Some(n) => {
                    acc = n;
                },
                None => {
                    proof {
                        lemma_prefix_value_le(d, j - ds + 1);
                    }
                    return None;
                },
            },
            None => {
                proof {
                    lemma_prefix_value_le(d, j - ds + 1);
                }
                return None;
            },
        }
        j = j + 1;
    }
    assert(v@.subrange(ds as int, j as int) =~= d);
    Some(acc)
}

/// Reads one line of input as a command.
///
/// The first word names the command and any further words are ignored, except that
/// `a` reads its byte count from the second word.
pub fn parse_command(line: &str) -> (r: Command)
    ensures
        r == command_of(line@),
{
    let v = chars_of(line);
    let a = skip_space_from(&v, 0);
    let b = word_end_from(&v, a);
    let c = skip_space_from(&v, b);
    let d = word_end_from(&v, c);
    let ghost w = v@.subrange(a as int, b as int);
    if b - a == 1 {
        assert(w =~= seq![v@[a as int]]);
        let head = v[a];
        if head == 'a' {
            assert(w =~= seq!['a']);
            match parse_size(&v, c, d) {
                Some(n) => Command::Allocate(n),
                None => Command::ParseError,
            }
        } else if head == 'd' {
            assert(w =~= seq!['d']);
            Command::Deallocate
        } else if head == 'v' {
            assert(w =~= seq!['v']);
            Command::Redraw
        } else if head == 'q' {
            assert(w =~= seq!['q']);
            Command::Quit
        } else {
            assert(w != seq!['a'] && w != seq!['d'] && w != seq!['v'] && w != seq!['q']) by {
                assert(w[0] == head);
            }
            Command::Invalid
        }
    } else {
        assert(w.len() != 1);
        Command::Invalid
    }
}

} // verus!
