//! Chat commands. A command is a `/`, a keyword, optionally `@` and the
//! bot's name, then its argument after blanks or a colon. Keywords are
//! matched without regard to ASCII case.

use vstd::prelude::*;

verus! {

/// A recognised command.
#[derive(Debug)]
pub enum Command {
    Help,
    /// Also written `start`.
    Register,
    Subscribe(String),
    List,
    Unsubscribe(i64),
    /// Also written `delete`.
    DeleteAccount,
}

pub enum CommandView {
    Help,
    Register,
    Subscribe(Seq<char>),
    List,
    Unsubscribe(i64),
    DeleteAccount,
}

impl View for Command {
    type V = CommandView;

    open spec fn view(&self) -> CommandView {
        match self {
            Command::Help => CommandView::Help,
            Command::Register => CommandView::Register,
            Command::Subscribe(url) => CommandView::Subscribe(url@),
            Command::List => CommandView::List,
            Command::Unsubscribe(id) => CommandView::Unsubscribe(*id),
            Command::DeleteAccount => CommandView::DeleteAccount,
        }
    }
}

pub open spec fn is_blank(c: char) -> bool {
    c == ' ' || c == '\t' || c == '\n' || c == '\r'
}

pub open spec fn is_sep(c: char) -> bool {
    is_blank(c) || c == ':'
}

/// `c` is the letter `k` in either case, or `k` itself.
pub open spec fn same_letter(c: char, k: char) -> bool {
    c == k || (97 <= (k as u32) <= 122 && (c as u32) + 32 == (k as u32))
}

/// `w` is the keyword `k`, without regard to ASCII case.
pub open spec fn is_word(w: Seq<char>, k: Seq<char>) -> bool {
    w.len() == k.len() && forall|i: int| 0 <= i < w.len() ==> same_letter(#[trigger] w[i], k[i])
}

/// The first position at or after `i` that holds a separator (where
/// `seps`) or an `@` (where not), or the end.
pub open spec fn scan(t: Seq<char>, i: int, seps: bool) -> int
    decreases t.len() - i,
{
    if i < 0 || i >= t.len() {
        t.len() as int
    } else if (seps && is_sep(t[i])) || (!seps && t[i] == '@') {
        i
    } else {
        scan(t, i + 1, seps)
    }
}

/// The first position at or after `i` that holds no separator, or the end.
pub open spec fn skip_seps(t: Seq<char>, i: int) -> int
    decreases t.len() - i,
{
    if i < 0 || i >= t.len() {
        t.len() as int
    } else if is_sep(t[i]) {
        skip_seps(t, i + 1)
    } else {
        i
    }
}

/// `hi`, moved down past the blanks that end `t[lo..hi]`.
pub open spec fn trim_end(t: Seq<char>, lo: int, hi: int) -> int
    decreases hi - lo,
{
    if hi > lo && is_blank(t[hi - 1]) {
        trim_end(t, lo, hi - 1)
    } else {
        hi
    }
}

/// The keyword of a command text: after the `/`, up to a separator, and
/// without an `@` mention.
pub open spec fn keyword(t: Seq<char>) -> Seq<char> {
    let end = scan(t, 1, true);
    let at = scan(t, 1, false);
    t.subrange(1, if at < end { at } else { end })
}

/// The argument of a command text: what follows the keyword, without the
/// separators before it and the blanks after it.
pub open spec fn argument(t: Seq<char>) -> Seq<char> {
    let lo = skip_seps(t, scan(t, 1, true));
    t.subrange(lo, trim_end(t, lo, t.len() as int))
}

pub open spec fn is_digit(c: char) -> bool {
    48 <= (c as u32) <= 57
}

pub open spec fn numeral_value(d: Seq<char>) -> int
    decreases d.len(),
{
    if d.len() == 0 {
        0
    } else {
        numeral_value(d.drop_last()) * 10 + ((d.last() as u32) - ('0' as u32))
    }
}

pub open spec fn has_sign(a: Seq<char>) -> bool {
    a.len() > 0 && (a[0] == '-' || a[0] == '+')
}

/// The digits of a feed id: what follows its sign, if any.
pub open spec fn id_digits(a: Seq<char>) -> Seq<char> {
    if has_sign(a) {
        a.subrange(1, a.len() as int)
    } else {
        a
    }
}

/// A feed id written in decimal, with an optional sign, within `i64`.
pub open spec fn id_value(a: Seq<char>) -> Option<i64> {
    let v = if has_sign(a) && a[0] == '-' {
        -numeral_value(id_digits(a))
    } else {
        numeral_value(id_digits(a))
    };
    if id_digits(a).len() > 0 && (forall|i: int|
        0 <= i < id_digits(a).len() ==> is_digit(#[trigger] id_digits(a)[i])) && i64::MIN <= v
        <= i64::MAX {
        Some(v as i64)
    } else {
        None
    }
}

/// The command that a message text holds, if any.
pub open spec fn command_of(t: Seq<char>) -> Option<CommandView> {
    if t.len() == 0 || t[0] != '/' {
        None
    } else {
        let w = keyword(t);
        let a = argument(t);
        if is_word(w, "help"@) && a.len() == 0 {
            Some(CommandView::Help)
        } else if (is_word(w, "register"@) || is_word(w, "start"@)) && a.len() == 0 {
            Some(CommandView::Register)
        } else if is_word(w, "subscribe"@) && a.len() > 0 && (forall|i: int|
            0 <= i < a.len() ==> !is_blank(#[trigger] a[i])) {
            Some(CommandView::Subscribe(a))
        } else if is_word(w, "list"@) && a.len() == 0 {
            Some(CommandView::List)
        } else if is_word(w, "unsubscribe"@) && id_value(a) is Some {
            Some(CommandView::Unsubscribe(id_value(a)->Some_0))
        } else if (is_word(w, "deleteaccount"@) || is_word(w, "delete"@)) && a.len() == 0 {
            Some(CommandView::DeleteAccount)
        } else {
            None
        }
    }
}

fn is_sep_char(c: char) -> (r: bool)
    ensures
        r == is_sep(c),
{
    c == ' ' || c == '\t' || c == '\n' || c == '\r' || c == ':'
}

fn is_blank_char(c: char) -> (r: bool)
    ensures
        r == is_blank(c),
{
    c == ' ' || c == '\t' || c == '\n' || c == '\r'
}

fn scan_text(t: &str, n: usize, i: usize, seps: bool) -> (r: usize)
    requires
        n == t@.len(),
        1 <= i <= n,
    ensures
        r == scan(t@, i as int, seps),
        i <= r <= n,
{
    let mut j = i;
    while j < n
        invariant
            n == t@.len(),
            i <= j <= n,
            scan(t@, j as int, seps) == scan(t@, i as int, seps),
        decreases n - j,
    {
        let c = t.get_char(j);
        if (seps && is_sep_char(c)) || (!seps && c == '@') {
            return j;
        }
        j = j + 1;
    }
    j
}

fn skip_seps_text(t: &str, n: usize, i: usize) -> (r: usize)
    requires
        n == t@.len(),
        1 <= i <= n,
    ensures
        r == skip_seps(t@, i as int),
        i <= r <= n,
{
    let mut j = i;
    while j < n
        invariant
            n == t@.len(),
            i <= j <= n,
            skip_seps(t@, j as int) == skip_seps(t@, i as int),
        decreases n - j,
    {
        if !is_sep_char(t.get_char(j)) {
            return j;
        }
        j = j + 1;
    }
    j
}

fn trim_end_text(t: &str, lo: usize, n: usize) -> (r: usize)
    requires
        n == t@.len(),
        lo <= n,
    ensures
        r == trim_end(t@, lo as int, n as int),
        lo <= r <= n,
{
    let mut hi = n;
    while hi > lo
        invariant
            n == t@.len(),
            lo <= hi <= n,
            trim_end(t@, lo as int, hi as int) == trim_end(t@, lo as int, n as int),
        decreases hi,
    {
        if !is_blank_char(t.get_char(hi - 1)) {
            return hi;
        }
        hi = hi - 1;
    }
    hi
}

/// Whether `t[from..to]` is the keyword `k`.
fn word_is(t: &str, from: usize, to: usize, k: &str) -> (r: bool)
    requires
        from <= to <= t@.len(),
    ensures
        r == is_word(t@.subrange(from as int, to as int), k@),
{
    let w = k.unicode_len();
    if w != to - from {
        return false;
    }
    let mut i: usize = 0;
    while i < w
        invariant
            w == k@.len(),
            w == to - from,
            to <= t@.len(),
            i <= w,
            forall|q: int| 0 <= q < i ==> same_letter(#[trigger] t@.subrange(from as int, to as int)[q], k@[q]),
        decreases w - i,
    {
        let c = t.get_char(from + i);
        let l = k.get_char(i);
        if !(c == l || (97 <= (l as u32) && (l as u32) <= 122 && (c as u32) + 32 == (l as u32))) {
            assert(t@.subrange(from as int, to as int)[i as int] == c);
            return false;
        }
        assert(t@.subrange(from as int, to as int)[i as int] == c);
        i = i + 1;
    }
    true
}

/// Whether `t[lo..hi]` holds no blank.
fn no_blank(t: &str, lo: usize, hi: usize) -> (r: bool)
    requires
        lo <= hi <= t@.len(),
    ensures
        r == forall|i: int| 0 <= i < hi - lo ==> !is_blank(#[trigger] t@.subrange(lo as int, hi as int)[i]),
{
    let mut j = lo;
    while j < hi
        invariant
            lo <= j <= hi <= t@.len(),
            forall|i: int| 0 <= i < j - lo ==> !is_blank(#[trigger] t@.subrange(lo as int, hi as int)[i]),
        decreases hi - j,
    {
        let c = t.get_char(j);
        assert(t@.subrange(lo as int, hi as int)[j - lo] == c);
        if is_blank_char(c) {
            return false;
        }
        j = j + 1;
    }
    true
}

/// Just above `i64::MAX` in magnitude: where a numeral's value stops
/// mattering.
const NUMERAL_CAP: u128 = 9223372036854775809;

/// Reads `t[lo..hi]` as a feed id.
fn parse_id(t: &str, lo: usize, hi: usize) -> (r: Option<i64>)
    requires
        lo <= hi <= t@.len(),
    ensures
        r == id_value(t@.subrange(lo as int, hi as int)),
{
    let ghost a = t@.subrange(lo as int, hi as int);
    let mut start = lo;
    let mut negative = false;
    if lo < hi {
        let c = t.get_char(lo);
        assert(a[0] == c);
        if c == '-' || c == '+' {
            negative = c == '-';
            start = lo + 1;
        }
    }
    let ghost digits = t@.subrange(start as int, hi as int);
    assert(digits =~= id_digits(a));
    if start == hi {
        return None;
    }
    let mut acc: u128 = 0;
    let mut j = start;
    while j < hi
        invariant
            lo <= start <= j <= hi <= t@.len(),
            digits == t@.subrange(start as int, hi as int),
            digits == id_digits(a),
            a == t@.subrange(lo as int, hi as int),
            forall|i: int| 0 <= i < j - start ==> is_digit(#[trigger] digits[i]),
            acc == if numeral_value(digits.subrange(0, j - start)) < NUMERAL_CAP {
                numeral_value(digits.subrange(0, j - start))
            } else {
                NUMERAL_CAP as int
            },
        decreases hi - j,
    {
        let c = t.get_char(j);
        assert(digits[j - start] == c);
        if !(48 <= (c as u32) && (c as u32) <= 57) {
            assert(!is_digit(id_digits(a)[j - start]));
            return None;
        }
        let d = ((c as u32) - 48) as u128;
        proof {
            assert(digits.subrange(0, j + 1 - start).drop_last() =~= digits.subrange(0, j - start));
        }
        let next = acc * 10 + d;
        acc = if next < NUMERAL_CAP {
            next
        } else {
            NUMERAL_CAP
        };
        j = j + 1;
    }
    proof {
        assert(digits.subrange(0, j - start) =~= digits);
    }
    if negative {
        if acc <= 9223372036854775808 {
            Some((0i128 - acc as i128) as i64)
        } else {
            None
        }
    } else {
        if acc <= 9223372036854775807 {
            Some(acc as i64)
        } else {
            None
        }
    }
}

/// Reads the command that a message text holds, if any.
pub fn parse_command(text: &str) -> (r: Option<Command>)
    ensures
        r is None <==> command_of(text@) is None,
        r matches Some(c) ==> command_of(text@) == Some(c@),
{
    let n = text.unicode_len();
    if n == 0 || text.get_char(0) != '/' {
        return None;
    }
    let end = scan_text(text, n, 1, true);
    let at = scan_text(text, n, 1, false);
    let word_end = if at < end {
        at
    } else {
        end
    };
    let lo = skip_seps_text(text, n, end);
    let hi = trim_end_text(text, lo, n);
    let empty = lo == hi;
    proof {
        assert(keyword(text@) == text@.subrange(1, word_end as int));
        assert(argument(text@) == text@.subrange(lo as int, hi as int));
    }
    if word_is(text, 1, word_end, "help") && empty {
        Some(Command::Help)
    } else if (word_is(text, 1, word_end, "register") || word_is(text, 1, word_end, "start")) && empty {
        Some(Command::Register)
    } else if word_is(text, 1, word_end, "subscribe") && !empty && no_blank(text, lo, hi) {
        Some(Command::Subscribe(text.substring_char(lo, hi).to_owned()))
    } else if word_is(text, 1, word_end, "list") && empty {
        Some(Command::List)
    } else if word_is(text, 1, word_end, "unsubscribe") && parse_id(text, lo, hi).is_some() {
        match parse_id(text, lo, hi) {
            Some(id) => Some(Command::Unsubscribe(id)),
            None => None,
        }
    } else if (word_is(text, 1, word_end, "deleteaccount") || word_is(text, 1, word_end, "delete")) && empty {
        Some(Command::DeleteAccount)
    } else {
        None
    }
}

} // verus!
