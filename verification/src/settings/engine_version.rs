//! Engine versions and their text form `major.minor.patch`.
use vstd::prelude::*;

verus! {

/// A version of the engine: three numbers, written `major.minor.patch`.
#[derive(PartialEq, Eq, Clone, Copy, Debug, Structural)]
pub struct EngineVersion {
    major: u8,
    minor: u8,
    patch: u8,
}

/// The character of the decimal digit `d`.
pub open spec fn digit_char(d: int) -> char {
    (('0' as u32) + d) as char
}

/// The decimal form of `n`, without leading zeros.
pub open spec fn decimal(n: nat) -> Seq<char>
    decreases n,
{
    if n < 10 {
        seq![digit_char(n as int)]
    } else {
        decimal(n / 10).push(digit_char((n % 10) as int))
    }
}

/// Whether every character of `s` is a decimal digit.
pub open spec fn all_digits(s: Seq<char>) -> bool {
    forall|i: int| 0 <= i < s.len() ==> '0' <= #[trigger] s[i] <= '9'
}

/// The number that the decimal digits `s` spell.
pub open spec fn digits_value(s: Seq<char>) -> int
    decreases s.len(),
{
    if s.len() == 0 {
        0
    } else {
        digits_value(s.drop_last()) * 10 + ((s.last() as u32) - ('0' as u32))
    }
}

/// What `u8::from_str` gives: an optional `+`, then one or more decimal
/// digits whose value is at most 255.
pub open spec fn parse_u8(s: Seq<char>) -> Option<u8> {
    let d = if s.len() > 0 && s[0] == '+' {
        s.drop_first()
    } else {
        s
    };
    if d.len() > 0 && all_digits(d) && digits_value(d) <= 255 {
        Some(digits_value(d) as u8)
    } else {
        None
    }
}

/// The pieces of `s` between dots, as `str::split('.')` yields them:
/// always at least one piece, possibly empty ones.
pub open spec fn split_dots(s: Seq<char>) -> Seq<Seq<char>>
    decreases s.len(),
{
    if s.len() == 0 {
        seq![Seq::<char>::empty()]
    } else {
        let p = split_dots(s.drop_last());
        if s.last() == '.' {
            p.push(Seq::<char>::empty())
        } else {
            p.update(p.len() - 1, p.last().push(s.last()))
        }
    }
}

/// The version that the text `s` gives: its first three dot-separated
/// pieces read as numbers from 0 to 255; later pieces are ignored.
pub open spec fn version_from_text(s: Seq<char>) -> Option<EngineVersion> {
    let p = split_dots(s);
    if p.len() >= 3 && parse_u8(p[0]) is Some && parse_u8(p[1]) is Some && parse_u8(p[2]) is Some {
        Some(EngineVersion::spec_new(parse_u8(p[0])->0, parse_u8(p[1])->0, parse_u8(p[2])->0))
    } else {
        None
    }
}

/// The one-character string of the digit `d`.
fn digit_str(d: u8) -> (res: &'static str)
    requires
        d < 10,
    ensures
        res@ == seq![digit_char(d as int)],
{
    match d {
        0 => {
            proof {
                reveal_strlit("0");
            }
            "0"
        },
        1 => {
            proof {
                reveal_strlit("1");
            }
            "1"
        },
        2 => {
            proof {
                reveal_strlit("2");
            }
            "2"
        },
        3 => {
            proof {
                reveal_strlit("3");
            }
            "3"
        },
        4 => {
            proof {
                reveal_strlit("4");
            }
            "4"
        },
        5 => {
            proof {
                reveal_strlit("5");
            }
            "5"
        },
        6 => {
            proof {
                reveal_strlit("6");
            }
            "6"
        },
        7 => {
            proof {
                reveal_strlit("7");
            }
            "7"
        },
        8 => {
            proof {
                reveal_strlit("8");
            }
            "8"
        },
        _ => {
            proof {
                reveal_strlit("9");
            }
            "9"
        },
    }
}

/// Appends the decimal form of `n` to `out`.
fn push_decimal(out: &mut String, n: u8)
    ensures
        final(out)@ == old(out)@ + decimal(n as nat),
{
    if n >= 100 {
        out.append(digit_str(n / 100));
    }
    if n >= 10 {
        out.append(digit_str((n / 10) % 10));
    }
    out.append(digit_str(n % 10));
    proof {
        let m = n as nat;
        if m >= 100 {
            assert(decimal(m / 10 / 10) == seq![digit_char((m / 100) as int)]);
            assert(decimal(m / 10) == decimal(m / 10 / 10).push(digit_char(((m / 10) % 10) as int)));
        } else if m >= 10 {
            assert(decimal(m / 10) == seq![digit_char((m / 10) as int)]);
        }
        assert(final(out)@ =~= old(out)@ + decimal(m));
    }
}

/// Decimal digits never contain a dot, and the form of `n` reads back as `n`.
proof fn lemma_decimal(n: nat)
    ensures
        decimal(n).len() > 0,
        all_digits(decimal(n)),
        decimal(n)[0] != '+',
        digits_value(decimal(n)) == n,
        !decimal(n).contains('.'),
    decreases n,
{
    if n < 10 {
        let d = decimal(n);
        assert(d.drop_last() =~= Seq::<char>::empty());
        assert(digit_char(n as int) as u32 == '0' as u32 + n);
        assert(digits_value(Seq::<char>::empty()) == 0);
        assert(digits_value(d) == n);
    } else {
        lemma_decimal(n / 10);
        let d = decimal(n);
        assert(d.drop_last() =~= decimal(n / 10));
        assert(d[0] == decimal(n / 10)[0]);
        assert(d.last() == digit_char((n % 10) as int));
        assert forall|i: int| 0 <= i < d.len() implies '0' <= #[trigger] d[i] <= '9' by {
            if i < d.len() - 1 {
                assert(d[i] == decimal(n / 10)[i]);
            }
        }
        if d.contains('.') {
            let i = choose|i: int| 0 <= i < d.len() && d[i] == '.';
            assert('0' <= d[i] <= '9');
        }
    }
}

/// Text without a dot is a single piece.
proof fn lemma_split_no_dot(s: Seq<char>)
    requires
        !s.contains('.'),
    ensures
        split_dots(s) == seq![s],
    decreases s.len(),
{
    if s.len() == 0 {
        assert(s =~= Seq::<char>::empty());
    } else {
        assert(!s.drop_last().contains('.')) by {
            if s.drop_last().contains('.') {
                let i = choose|i: int| 0 <= i < s.drop_last().len() && s.drop_last()[i] == '.';
                assert(s[i] == '.');
            }
        }
        lemma_split_no_dot(s.drop_last());
        assert(s.last() != '.') by {
            assert(s[s.len() - 1] == s.last());
        }
        assert(s.drop_last().push(s.last()) =~= s);
        assert(split_dots(s) =~= seq![s]);
    }
}

/// A dot followed by dot-free text adds that text as one more piece.
proof fn lemma_split_append_piece(x: Seq<char>, y: Seq<char>)
    requires
        !y.contains('.'),
    ensures
        split_dots(x + seq!['.'] + y) == split_dots(x).push(y),
    decreases y.len(),
{
    let s = x + seq!['.'] + y;
    if y.len() == 0 {
        assert(s.drop_last() =~= x);
        assert(y =~= Seq::<char>::empty());
    } else {
        assert(!y.drop_last().contains('.')) by {
            if y.drop_last().contains('.') {
                let i = choose|i: int| 0 <= i < y.drop_last().len() && y.drop_last()[i] == '.';
                assert(y[i] == '.');
            }
        }
        lemma_split_append_piece(x, y.drop_last());
        assert(s.drop_last() =~= x + seq!['.'] + y.drop_last());
        assert(s.last() == y.last());
        assert(y.last() != '.') by {
            assert(y[y.len() - 1] == y.last());
        }
        assert(y.drop_last().push(y.last()) =~= y);
        assert(split_dots(s) =~= split_dots(x).push(y));
    }
}

/// On digits, a prefix never spells a larger number than the whole.
proof fn lemma_digits_prefix(s: Seq<char>, k: int)
    requires
        all_digits(s),
        0 <= k <= s.len(),
    ensures
        digits_value(s.subrange(0, k)) <= digits_value(s),
        0 <= digits_value(s),
    decreases s.len(),
{
    if s.len() > 0 {
        assert(all_digits(s.drop_last())) by {
            assert forall|i: int| 0 <= i < s.drop_last().len() implies '0' <= #[trigger] s.drop_last()[i] <= '9' by {
                assert(s.drop_last()[i] == s[i]);
            }
        }
        assert('0' <= s[s.len() - 1] <= '9');
        if k == s.len() {
            assert(s.subrange(0, k) =~= s);
            lemma_digits_prefix(s.drop_last(), 0);
        } else {
            lemma_digits_prefix(s.drop_last(), k);
            assert(s.drop_last().subrange(0, k) =~= s.subrange(0, k));
        }
    }
}

/// Reads a number from 0 to 255 the way `u8::from_str` does.
fn parse_u8_chars(s: &Vec<char>) -> (res: Option<u8>)
    ensures
        res == parse_u8(s@),
{
    let n = s.len();
    let start: usize = if n > 0 && s[0] == '+' {
        1
    } else {
        0
    };
    let ghost d = if s@.len() > 0 && s@[0] == '+' {
        s@.drop_first()
    } else {
        s@
    };
    assert(d =~= s@.subrange(start as int, n as int));
    if start == n {
        return None;
    }
    let mut val: u32 = 0;
    let mut i: usize = start;
    while i < n
        invariant
            n == s@.len(),
            start <= i <= n,
            start < n,
            d == s@.subrange(start as int, n as int),
            d == (if s@.len() > 0 && s@[0] == '+' {
                s@.drop_first()
            } else {
                s@
            }),
            all_digits(d.subrange(0, i - start)),
            val == digits_value(d.subrange(0, i - start)),
            val <= 255,
        decreases n - i,
    {
        let c = s[i];
        let ghost pre = d.subrange(0, i - start);
        let ghost next = d.subrange(0, i + 1 - start);
        assert(next.drop_last() =~= pre);
        assert(next.last() == c);
        if c < '0' || c > '9' {
            assert(d[i - start] == c);
            return None;
        }
        val = val * 10 + ((c as u32) - ('0' as u32));
        assert(all_digits(next)) by {
            assert forall|j: int| 0 <= j < next.len() implies '0' <= #[trigger] next[j] <= '9' by {
                if j < next.len() - 1 {
                    assert(next[j] == pre[j]);
                }
            }
        }
        if val > 255 {
            proof {
                if all_digits(d) {
                    lemma_digits_prefix(d, i + 1 - start);
                }
            }
            return None;
        }
        i = i + 1;
    }
    assert(d.subrange(0, n - start) =~= d);
    Some(val as u8)
}

/// The pieces of `v` between dots, in order.
fn split_on_dots(v: &str) -> (res: Vec<Vec<char>>)
    ensures
        res@.len() == split_dots(v@).len(),
        forall|k: int| 0 <= k < res@.len() ==> #[trigger] res@[k]@ == split_dots(v@)[k],
{
    let n = v.unicode_len();
    let mut done: Vec<Vec<char>> = Vec::new();
    let mut cur: Vec<char> = Vec::new();
    let mut i: usize = 0;
    assert(v@.subrange(0, 0) =~= Seq::<char>::empty());
    while i < n
        invariant
            n == v@.len(),
            i <= n,
            done@.len() + 1 == split_dots(v@.subrange(0, i as int)).len(),
            forall|k: int| 0 <= k < done@.len() ==> #[trigger] done@[k]@ == split_dots(v@.subrange(0, i as int))[k],
            cur@ == split_dots(v@.subrange(0, i as int)).last(),
        decreases n - i,
    {
        let c = v.get_char(i);
        let ghost p = split_dots(v@.subrange(0, i as int));
        assert(v@.subrange(0, i + 1).drop_last() =~= v@.subrange(0, i as int));
        assert(v@.subrange(0, i + 1).last() == c);
        if c == '.' {
            done.push(cur);
            cur = Vec::new();
            assert(cur@ =~= Seq::<char>::empty());
        } else {
            cur.push(c);
        }
        i = i + 1;
    }
    assert(v@.subrange(0, n as int) =~= v@);
    done.push(cur);
    done
}

impl EngineVersion {
    /// The version with the given numbers.
    pub closed spec fn spec_new(major: u8, minor: u8, patch: u8) -> EngineVersion {
        EngineVersion { major, minor, patch }
    }

    pub closed spec fn spec_major(self) -> u8 {
        self.major
    }

    pub closed spec fn spec_minor(self) -> u8 {
        self.minor
    }

    pub closed spec fn spec_patch(self) -> u8 {
        self.patch
    }

    /// A version is its three numbers.
    pub proof fn lemma_numbers(major: u8, minor: u8, patch: u8, v: EngineVersion)
        ensures
            Self::spec_new(major, minor, patch).spec_major() == major,
            Self::spec_new(major, minor, patch).spec_minor() == minor,
            Self::spec_new(major, minor, patch).spec_patch() == patch,
            v == Self::spec_new(v.spec_major(), v.spec_minor(), v.spec_patch()),
    {
    }

    /// The text form `major.minor.patch`, each number in decimal.
    pub open spec fn text(self) -> Seq<char> {
        decimal(self.spec_major() as nat) + seq!['.'] + decimal(self.spec_minor() as nat) + seq!['.']
            + decimal(self.spec_patch() as nat)
    }

    /// The version of this engine.
    pub fn current() -> (res: EngineVersion)
        ensures
            res == EngineVersion::spec_new(0, 0, 0),
    {
        EngineVersion { major: 0, minor: 0, patch: 0 }
    }

    pub fn new(major: u8, minor: u8, patch: u8) -> (res: Self)
        ensures
            res == EngineVersion::spec_new(major, minor, patch),
    {
        Self { major, minor, patch }
    }

    /// The text form `major.minor.patch`.
    pub fn to_version_string(&self) -> (res: String)
        ensures
            res@ == self.text(),
    {
        let mut out = String::new();
        push_decimal(&mut out, self.major);
        proof {
            reveal_strlit(".");
        }
        out.append(".");
        push_decimal(&mut out, self.minor);
        out.append(".");
        push_decimal(&mut out, self.patch);
        assert(out@ =~= self.text());
        out
    }

    /// Reads a version from text: the first three pieces between dots,
    /// each a number from 0 to 255 as `u8::from_str` reads it.  Pieces
    /// after the third are ignored; `None` when there are fewer than three
    /// pieces or one of the first three is no such number.
    pub fn from_text(v: &str) -> (res: Option<EngineVersion>)
        ensures
            res == version_from_text(v@),
    {
        let pieces = split_on_dots(v);
        if pieces.len() < 3 {
            return None;
        }
        let major = parse_u8_chars(&pieces[0]);
        let minor = parse_u8_chars(&pieces[1]);
        let patch = parse_u8_chars(&pieces[2]);
        match (major, minor, patch) {
            (Some(major), Some(minor), Some(patch)) => Some(EngineVersion { major, minor, patch }),
            _ => None,
        }
    }

    pub fn major(self) -> (res: u8)
        ensures
            res == self.spec_major(),
    {
        self.major
    }

    pub fn minor(self) -> (res: u8)
        ensures
            res == self.spec_minor(),
    {
        self.minor
    }

    pub fn patch(self) -> (res: u8)
        ensures
            res == self.spec_patch(),
    {
        self.patch
    }
}

/// Writing a version as text and reading that text back gives the same
/// version.
pub proof fn text_reads_back(v: EngineVersion)
    ensures
        version_from_text(v.text()) == Some(v),
{
    let a = decimal(v.spec_major() as nat);
    let b = decimal(v.spec_minor() as nat);
    let c = decimal(v.spec_patch() as nat);
    lemma_decimal(v.spec_major() as nat);
    lemma_decimal(v.spec_minor() as nat);
    lemma_decimal(v.spec_patch() as nat);
    lemma_split_no_dot(a);
    lemma_split_append_piece(a, b);
    lemma_split_append_piece(a + seq!['.'] + b, c);
    let p = split_dots(v.text());
    assert(p =~= seq![a, b, c]);
    assert(parse_u8(a) == Some(v.spec_major()));
    assert(parse_u8(b) == Some(v.spec_minor()));
    assert(parse_u8(c) == Some(v.spec_patch()));
    EngineVersion::lemma_numbers(v.spec_major(), v.spec_minor(), v.spec_patch(), v);
}

} // verus!
