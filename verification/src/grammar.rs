//! The command grammar: one line of text becomes a typed `Command`, or a
//! `ParseError`. A line is split on single ASCII spaces; the first token
//! selects the verb and the remaining tokens are its arguments, whose count
//! must match the verb's arity exactly.

use vstd::prelude::*;

verus! {

/// A parsed, typed instruction derived from one input line.
#[derive(Debug)]
pub enum Command {
    Exit,
    Sleep(u64),
    Count(u64),
    ReadFromFile(String),
    CreateFile(String),
    CreateDir(String),
}

/// The mathematical model of a `Command`: path arguments as character
/// sequences.
pub enum CommandModel {
    Exit,
    Sleep(u64),
    Count(u64),
    ReadFromFile(Seq<char>),
    CreateFile(Seq<char>),
    CreateDir(Seq<char>),
}

impl View for Command {
    type V = CommandModel;

    open spec fn view(&self) -> CommandModel {
        match self {
            Command::Exit => CommandModel::Exit,
            Command::Sleep(s) => CommandModel::Sleep(*s),
            Command::Count(n) => CommandModel::Count(*n),
            Command::ReadFromFile(p) => CommandModel::ReadFromFile(p@),
            Command::CreateFile(p) => CommandModel::CreateFile(p@),
            Command::CreateDir(p) => CommandModel::CreateDir(p@),
        }
    }
}

/// A malformed or unknown command line. Recovered locally by the caller:
/// parsing never aborts the supervisor.
#[derive(Debug)]
pub struct ParseError;

/// Splitting a line on every ASCII space, as `str::split(' ')` does: an
/// empty line yields one empty token, and consecutive spaces yield empty
/// tokens between them.
pub open spec fn split_on_space(s: Seq<char>) -> Seq<Seq<char>>
    decreases s.len(),
{
    if s.len() == 0 {
        seq![Seq::<char>::empty()]
    } else if s[0] == ' ' {
        seq![Seq::<char>::empty()] + split_on_space(s.skip(1))
    } else {
        let rest = split_on_space(s.skip(1));
        seq![seq![s[0]] + rest[0]] + rest.skip(1)
    }
}

/// How many ASCII spaces a line holds.
pub open spec fn space_count(s: Seq<char>) -> nat
    decreases s.len(),
{
    if s.len() == 0 {
        0
    } else {
        (if s[0] == ' ' { 1nat } else { 0nat }) + space_count(s.skip(1))
    }
}

/// An ASCII decimal digit.
pub open spec fn is_digit(c: char) -> bool {
    48 <= c as u32 && c as u32 <= 57
}

/// The numeric value of a decimal digit.
pub open spec fn digit_val(c: char) -> nat {
    (c as u32 - 48) as nat
}

/// The value of a sequence of decimal digits, most significant first.
pub open spec fn dec_val(s: Seq<char>) -> nat
    decreases s.len(),
{
    if s.len() == 0 {
        0
    } else {
        dec_val(s.drop_last()) * 10 + digit_val(s.last())
    }
}

/// The digits of a numeric token: an optional leading `+` sign is allowed,
/// as in `str::parse::<u64>`.
pub open spec fn digits_part(t: Seq<char>) -> Seq<char> {
    if t.len() > 0 && t[0] == '+' {
        t.skip(1)
    } else {
        t
    }
}

/// Whether a token is a valid base-10 `u64`: at least one digit after the
/// optional sign, digits only, and a value that fits in 64 bits.
pub open spec fn is_u64_token(t: Seq<char>) -> bool {
    let d = digits_part(t);
    &&& d.len() > 0
    &&& (forall|i: int| 0 <= i < d.len() ==> is_digit(d[i]))
    &&& dec_val(d) <= u64::MAX
}

/// The value of a valid numeric token.
pub open spec fn u64_token_val(t: Seq<char>) -> nat {
    dec_val(digits_part(t))
}

/// The grammar itself: which command, if any, a line denotes.
/// `exit` takes no argument; `sleep` and `count` take one non-negative
/// integer; the three filesystem verbs take one path, used verbatim.
pub open spec fn parse_spec(s: Seq<char>) -> Option<CommandModel> {
    let toks = split_on_space(s);
    if toks.len() == 1 && toks[0] == "exit"@ {
        Some(CommandModel::Exit)
    } else if toks.len() == 2 && toks[0] == "sleep"@ && is_u64_token(toks[1]) {
        Some(CommandModel::Sleep(u64_token_val(toks[1]) as u64))
    } else if toks.len() == 2 && toks[0] == "count"@ && is_u64_token(toks[1]) {
        Some(CommandModel::Count(u64_token_val(toks[1]) as u64))
    } else if toks.len() == 2 && toks[0] == "readfromfile"@ {
        Some(CommandModel::ReadFromFile(toks[1]))
    } else if toks.len() == 2 && toks[0] == "createfile"@ {
        Some(CommandModel::CreateFile(toks[1]))
    } else if toks.len() == 2 && toks[0] == "createdir"@ {
        Some(CommandModel::CreateDir(toks[1]))
    } else {
        None
    }
}

/// A line with no space is a single token: itself.
proof fn lemma_split_no_space(s: Seq<char>)
    requires
        forall|i: int| 0 <= i < s.len() ==> s[i] != ' ',
    ensures
        split_on_space(s) =~= seq![s],
    decreases s.len(),
{
    if s.len() == 0 {
        assert(s =~= Seq::<char>::empty());
    } else {
        lemma_split_no_space(s.skip(1));
        assert(seq![s[0]] + s.skip(1) =~= s);
    }
}

/// Splitting at the first space: the part before it (which holds no space)
/// is the first token, and the rest is split on its own.
proof fn lemma_split_at_first_space(a: Seq<char>, b: Seq<char>)
    requires
        forall|i: int| 0 <= i < a.len() ==> a[i] != ' ',
    ensures
        split_on_space(a + seq![' '] + b) =~= seq![a] + split_on_space(b),
    decreases a.len(),
{
    let s = a + seq![' '] + b;
    if a.len() == 0 {
        assert(s[0] == ' ');
        assert(s.skip(1) =~= b);
        assert(split_on_space(s) =~= seq![Seq::<char>::empty()] + split_on_space(b));
        assert(a =~= Seq::<char>::empty());
    } else {
        assert(s[0] == a[0]);
        assert(s[0] != ' ');
        assert(s.skip(1) =~= a.skip(1) + seq![' '] + b);
        lemma_split_at_first_space(a.skip(1), b);
        let rest = split_on_space(s.skip(1));
        assert(rest =~= seq![a.skip(1)] + split_on_space(b));
        assert(rest[0] == a.skip(1));
        assert(seq![s[0]] + rest[0] =~= a);
        assert(rest.skip(1) =~= split_on_space(b));
    }
}

/// A line always splits into one more token than it has spaces.
proof fn lemma_split_len(s: Seq<char>)
    ensures
        split_on_space(s).len() == space_count(s) + 1,
    decreases s.len(),
{
    if s.len() == 0 {
    } else {
        lemma_split_len(s.skip(1));
    }
}

/// A line without spaces has a space count of zero, and conversely.
proof fn lemma_zero_space_count(s: Seq<char>)
    requires
        space_count(s) == 0,
    ensures
        forall|i: int| 0 <= i < s.len() ==> s[i] != ' ',
    decreases s.len(),
{
    if s.len() > 0 {
        lemma_zero_space_count(s.skip(1));
        assert(forall|i: int| 1 <= i < s.len() ==> s[i] == s.skip(1)[i - 1]);
    }
}

/// Extending a prefix by one character adds that character's contribution
/// to the space count.
proof fn lemma_space_count_push(t: Seq<char>, c: char)
    ensures
        space_count(t.push(c)) == space_count(t) + (if c == ' ' {
            1nat
        } else {
            0nat
        }),
    decreases t.len(),
{
    assert(t.push(c).len() == t.len() + 1);
    if t.len() == 0 {
        assert(t.push(c)[0] == c);
        assert(t.push(c).skip(1) =~= Seq::<char>::empty());
        assert(space_count(t.push(c).skip(1)) == 0);
        assert(space_count(t.push(c)) == (if c == ' ' {
            1nat
        } else {
            0nat
        }) + space_count(t.push(c).skip(1)));
    } else {
        assert(t.push(c)[0] == t[0]);
        assert(t.push(c).skip(1) =~= t.skip(1).push(c));
        lemma_space_count_push(t.skip(1), c);
        assert(space_count(t.push(c)) == (if t[0] == ' ' {
            1nat
        } else {
            0nat
        }) + space_count(t.push(c).skip(1)));
        assert(space_count(t) == (if t[0] == ' ' {
            1nat
        } else {
            0nat
        }) + space_count(t.skip(1)));
    }
}

/// Reading one more digit multiplies the prefix value by ten and adds it.
proof fn lemma_dec_val_take_step(d: Seq<char>, j: int)
    requires
        0 <= j < d.len(),
    ensures
        dec_val(d.take(j + 1)) == dec_val(d.take(j)) * 10 + digit_val(d[j]),
{
    assert(d.take(j + 1).drop_last() =~= d.take(j));
    assert(d.take(j + 1).last() == d[j]);
}

/// The value of a digit string never shrinks as the string grows.
proof fn lemma_dec_val_take_mono(d: Seq<char>, j: int, k: int)
    requires
        0 <= j <= k <= d.len(),
    ensures
        dec_val(d.take(j)) <= dec_val(d.take(k)),
    decreases k - j,
{
    if j < k {
        lemma_dec_val_take_mono(d, j, k - 1);
        lemma_dec_val_take_step(d, k - 1);
    }
}

/// How many spaces a line holds, and where the first one stands (the
/// line's length when there is none).
fn scan_spaces(s: &str) -> (r: (usize, usize))
    ensures
        r.0 == space_count(s@),
        r.1 <= s@.len(),
        r.0 == 0 ==> r.1 == s@.len(),
        r.0 > 0 ==> r.1 < s@.len() && s@[r.1 as int] == ' ',
        forall|k: int| 0 <= k < r.1 ==> s@[k] != ' ',
{
    let n = s.unicode_len();
    let mut count: usize = 0;
    let mut first: usize = n;
    let mut i: usize = 0;
    while i < n
        invariant
            0 <= i <= n,
            n == s@.len(),
            count <= i,
            count == space_count(s@.take(i as int)),
            count == 0 ==> first == n,
            count > 0 ==> first < i && s@[first as int] == ' ',
            forall|k: int| 0 <= k < i && k < first ==> s@[k] != ' ',
        decreases n - i,
    {
        let c = s.get_char(i);
        proof {
            lemma_space_count_push(s@.take(i as int), s@[i as int]);
            assert(s@.take(i as int + 1) =~= s@.take(i as int).push(s@[i as int]));
        }
        if c == ' ' {
            if count == 0 {
                first = i;
            }
            count = count + 1;
        }
        i += 1;
    }
    proof {
        assert(s@.take(n as int) =~= s@);
    }
    (count, first)
}

/// Reads a base-10 `u64` from a token, allowing one leading `+` sign, as
/// `str::parse::<u64>` does; rejects empty tokens, non-digits, and values
/// that do not fit in 64 bits.
fn parse_u64(t: &str) -> (r: Option<u64>)
    ensures
        match r {
            Some(v) => is_u64_token(t@) && v as nat == u64_token_val(t@),
            None => !is_u64_token(t@),
        },
{
    let n = t.unicode_len();
    let start: usize = if n > 0 && t.get_char(0) == '+' {
        1
    } else {
        0
    };
    let ghost d = digits_part(t@);
    proof {
        assert(d =~= t@.skip(start as int));
    }
    if n == start {
        return None;
    }
    let mut value: u64 = 0;
    let mut i: usize = start;
    while i < n
        invariant
            start <= i <= n,
            n == t@.len(),
            start < n,
            d == digits_part(t@),
            d =~= t@.skip(start as int),
            d.len() == n - start,
            forall|k: int| 0 <= k < i - start ==> is_digit(d[k]),
            value as nat == dec_val(d.take(i - start)),
        decreases n - i,
    {
        let c = t.get_char(i);
        let cu = c as u32;
        proof {
            assert(d[i - start] == t@[i as int]);
        }
        if cu < 48 || cu > 57 {
            proof {
                assert(!is_digit(d[i - start]));
            }
            return None;
        }
        let dg: u64 = (cu - 48) as u64;
        let next: u128 = value as u128 * 10 + dg as u128;
        proof {
            lemma_dec_val_take_step(d, i - start);
            assert(digit_val(d[i - start]) == dg as nat);
        }
        if next > u64::MAX as u128 {
            proof {
                lemma_dec_val_take_mono(d, i + 1 - start, d.len() as int);
                assert(d.take(d.len() as int) =~= d);
            }
            return None;
        }
        value = next as u64;
        i += 1;
    }
    proof {
        assert(d.take(d.len() as int) =~= d);
    }
    Some(value)
}

impl Command {
    /// Parses one input line, exactly as the grammar `parse_spec` states:
    /// a command when the line denotes one, a `ParseError` otherwise.
    pub fn from_str(s: &str) -> (r: Result<Command, ParseError>)
        ensures
            match r {
                Ok(c) => parse_spec(s@) == Some(c@),
                Err(_) => parse_spec(s@) is None,
            },
    {
        proof {
            reveal_strlit("exit");
            reveal_strlit("sleep");
            reveal_strlit("count");
            reveal_strlit("readfromfile");
            reveal_strlit("createfile");
            reveal_strlit("createdir");
        }
        let n = s.unicode_len();
        let (spaces, first) = scan_spaces(s);
        if spaces == 0 {
            proof {
                lemma_split_no_space(s@);
            }
            if crate::strutil::str_eq(s, "exit") {
                Ok(Command::Exit)
            } else {
                Err(ParseError)
            }
        } else if spaces == 1 {
            let verb = s.substring_char(0, first);
            let arg = s.substring_char(first + 1, n);
            proof {
                let a = s@.take(first as int);
                let b = s@.skip(first as int + 1);
                assert(s@ =~= a + seq![' '] + b);
                lemma_split_at_first_space(a, b);
                lemma_split_len(s@);
                lemma_split_len(b);
                assert(split_on_space(s@).len() == 2);
                assert(space_count(b) == 0);
                lemma_zero_space_count(b);
                lemma_split_no_space(b);
                assert(split_on_space(s@) =~= seq![a, b]);
                assert(verb@ == a);
                assert(arg@ == b);
            }
            if crate::strutil::str_eq(verb, "sleep") {
                match parse_u64(arg) {
                    Some(v) => Ok(Command::Sleep(v)),
                    None => Err(ParseError),
                }
            } else if crate::strutil::str_eq(verb, "count") {
                match parse_u64(arg) {
                    Some(v) => Ok(Command::Count(v)),
                    None => Err(ParseError),
                }
            } else if crate::strutil::str_eq(verb, "readfromfile") {
                Ok(Command::ReadFromFile(arg.to_owned()))
            } else if crate::strutil::str_eq(verb, "createfile") {
                Ok(Command::CreateFile(arg.to_owned()))
            } else if crate::strutil::str_eq(verb, "createdir") {
                Ok(Command::CreateDir(arg.to_owned()))
            } else {
                Err(ParseError)
            }
        } else {
            proof {
                lemma_split_len(s@);
            }
            Err(ParseError)
        }
    }
}

} // verus!
