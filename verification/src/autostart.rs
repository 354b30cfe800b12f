//! Quoting of the executable path for the login-autostart entry.
//!
//! The autostart crate joins the executable path and its arguments with
//! spaces, unquoted, into the Windows registry value and into the `Exec` key
//! of the Linux `.desktop` file; a path with spaces would break the command
//! line, so the path is quoted here first. macOS passes the arguments as an
//! array and needs no quoting.

use vstd::prelude::*;

use crate::text::{chars_of, concat3, push_char};

verus! {

/// Whether the `Exec` quoting rule escapes `c` with a backslash.
pub open spec fn exec_escaped_char(c: char) -> bool {
    c == '"' || c == '`' || c == '$' || c == '\\'
}

/// Step one, the `Exec` key's quoting rule: `"` `` ` `` `$` `\` get a
/// backslash before them and `%` becomes `%%`.
pub open spec fn exec_quoting(s: Seq<char>) -> Seq<char>
    decreases s.len(),
{
    if s.len() == 0 {
        seq![]
    } else {
        let c = s.last();
        exec_quoting(s.drop_last()) + if exec_escaped_char(c) {
            seq!['\\', c]
        } else if c == '%' {
            seq!['%', '%']
        } else {
            seq![c]
        }
    }
}

/// Step two, the escape rule of every string value: each `\` is doubled.
pub open spec fn string_value_escaping(s: Seq<char>) -> Seq<char>
    decreases s.len(),
{
    if s.len() == 0 {
        seq![]
    } else {
        let c = s.last();
        string_value_escaping(s.drop_last()) + if c == '\\' {
            seq!['\\', '\\']
        } else {
            seq![c]
        }
    }
}

/// The path as one double-quoted argument of a Desktop Entry `Exec` key.
pub open spec fn desktop_entry_argument(s: Seq<char>) -> Seq<char> {
    seq!['"'] + string_value_escaping(exec_quoting(s)) + seq!['"']
}

/// Quotes `s` as a double-quoted argument of the `Exec` key of a Desktop
/// Entry file. A reader first undoes the general string escapes and then
/// applies the `Exec` quoting rule, so the writer applies them in the
/// opposite order: first the quoting rule (`"` `` ` `` `$` `\` get a
/// backslash, `%` becomes `%%`), then the string escape (every `\`, the
/// added ones too, is doubled). A literal `\` thus becomes four.
pub fn quote_for_desktop_entry(s: &str) -> (quoted: String)
    ensures
        quoted@ == desktop_entry_argument(s@),
{
    let chars = chars_of(s);
    let mut exec_escaped: Vec<char> = Vec::new();
    for i in 0..chars.len()
        invariant
            chars@ == s@,
            exec_escaped@ == exec_quoting(chars@.take(i as int)),
    {
        let c = chars[i];
        proof {
            assert(chars@.take(i + 1).drop_last() =~= chars@.take(i as int));
        }
        if c == '"' || c == '`' || c == '$' || c == '\\' {
            exec_escaped.push('\\');
            exec_escaped.push(c);
        } else if c == '%' {
            exec_escaped.push('%');
            exec_escaped.push('%');
        } else {
            exec_escaped.push(c);
        }
        proof {
            assert(exec_escaped@ =~= exec_quoting(chars@.take(i + 1)));
        }
    }
    proof {
        assert(chars@.take(chars@.len() as int) =~= chars@);
    }
    let mut value_escaped = String::new();
    push_char(&mut value_escaped, '"');
    for i in 0..exec_escaped.len()
        invariant
            value_escaped@ == seq!['"'] + string_value_escaping(exec_escaped@.take(i as int)),
    {
        let c = exec_escaped[i];
        proof {
            assert(exec_escaped@.take(i + 1).drop_last() =~= exec_escaped@.take(i as int));
        }
        if c == '\\' {
            push_char(&mut value_escaped, '\\');
            push_char(&mut value_escaped, '\\');
        } else {
            push_char(&mut value_escaped, c);
        }
        proof {
            assert(value_escaped@ =~= seq!['"'] + string_value_escaping(exec_escaped@.take(i + 1)));
        }
    }
    proof {
        assert(exec_escaped@.take(exec_escaped@.len() as int) =~= exec_escaped@);
    }
    push_char(&mut value_escaped, '"');
    value_escaped
}

/// Quotes `s` for the Windows registry command line: double quotes around it.
/// An executable path never ends in a backslash, the one character that
/// would change how the closing quote is read.
pub fn quote_for_command_line(s: &str) -> (quoted: String)
    ensures
        quoted@ == seq!['"'] + s@ + seq!['"'],
{
    let quoted = concat3("\"", s, "\"");
    proof {
        reveal_strlit("\"");
    }
    quoted
}

/// The character a string-value escape `\\x` stands for (`\\s` `\\n`
/// `\\t` `\\r` `\\\\`).
pub open spec fn string_escape_value(c: char) -> char {
    if c == 's' {
        ' '
    } else if c == 'n' {
        '\n'
    } else if c == 't' {
        '\t'
    } else if c == 'r' {
        '\r'
    } else {
        c
    }
}

/// A reader's first step on a Desktop Entry string value: undo the escapes.
pub open spec fn undo_string_value_escaping(s: Seq<char>) -> Seq<char>
    decreases s.len(),
{
    if s.len() == 0 {
        seq![]
    } else if s[0] == '\\' && s.len() >= 2 {
        seq![string_escape_value(s[1])] + undo_string_value_escaping(s.subrange(2, s.len() as int))
    } else {
        seq![s[0]] + undo_string_value_escaping(s.subrange(1, s.len() as int))
    }
}

/// A reader's second step, inside a quoted `Exec` argument: a backslash
/// takes the next character literally, `%%` is a literal `%`.
pub open spec fn undo_exec_quoting(s: Seq<char>) -> Seq<char>
    decreases s.len(),
{
    if s.len() == 0 {
        seq![]
    } else if s[0] == '\\' && s.len() >= 2 {
        seq![s[1]] + undo_exec_quoting(s.subrange(2, s.len() as int))
    } else if s[0] == '%' && s.len() >= 2 && s[1] == '%' {
        seq!['%'] + undo_exec_quoting(s.subrange(2, s.len() as int))
    } else {
        seq![s[0]] + undo_exec_quoting(s.subrange(1, s.len() as int))
    }
}

/// How a reader of the `Exec` key gets the argument back: undo the string
/// escapes, drop the surrounding quotes, undo the quoting rule.
pub open spec fn read_exec_argument(value: Seq<char>) -> Seq<char> {
    let unescaped = undo_string_value_escaping(value);
    undo_exec_quoting(unescaped.subrange(1, unescaped.len() - 1))
}

/// The piece `exec_quoting` makes of one character.
spec fn exec_piece(c: char) -> Seq<char> {
    if exec_escaped_char(c) {
        seq!['\\', c]
    } else if c == '%' {
        seq!['%', '%']
    } else {
        seq![c]
    }
}

/// The piece `string_value_escaping` makes of one character.
spec fn value_piece(c: char) -> Seq<char> {
    if c == '\\' {
        seq!['\\', '\\']
    } else {
        seq![c]
    }
}

proof fn lemma_exec_quoting_concat(a: Seq<char>, b: Seq<char>)
    ensures
        exec_quoting(a + b) == exec_quoting(a) + exec_quoting(b),
    decreases b.len(),
{
    if b.len() == 0 {
        assert(a + b =~= a);
        assert(exec_quoting(a) + exec_quoting(b) =~= exec_quoting(a));
    } else {
        lemma_exec_quoting_concat(a, b.drop_last());
        assert((a + b).drop_last() =~= a + b.drop_last());
        assert((a + b).last() == b.last());
        assert(exec_quoting(a + b) =~= exec_quoting(a) + exec_quoting(b));
    }
}

proof fn lemma_string_value_escaping_concat(a: Seq<char>, b: Seq<char>)
    ensures
        string_value_escaping(a + b) == string_value_escaping(a) + string_value_escaping(b),
    decreases b.len(),
{
    if b.len() == 0 {
        assert(a + b =~= a);
        assert(string_value_escaping(a) + string_value_escaping(b) =~= string_value_escaping(a));
    } else {
        lemma_string_value_escaping_concat(a, b.drop_last());
        assert((a + b).drop_last() =~= a + b.drop_last());
        assert((a + b).last() == b.last());
        assert(string_value_escaping(a + b) =~= string_value_escaping(a) + string_value_escaping(
            b,
        ));
    }
}

proof fn lemma_exec_quoting_first(s: Seq<char>)
    requires
        s.len() > 0,
    ensures
        exec_quoting(s) == exec_piece(s[0]) + exec_quoting(s.drop_first()),
{
    let head = seq![s[0]];
    assert(s =~= head + s.drop_first());
    lemma_exec_quoting_concat(head, s.drop_first());
    assert(head.drop_last() =~= Seq::<char>::empty());
    assert(exec_quoting(head.drop_last()) =~= Seq::<char>::empty());
    assert(exec_quoting(head) =~= exec_piece(s[0]));
}

proof fn lemma_string_value_escaping_first(s: Seq<char>)
    requires
        s.len() > 0,
    ensures
        string_value_escaping(s) == value_piece(s[0]) + string_value_escaping(s.drop_first()),
{
    let head = seq![s[0]];
    assert(s =~= head + s.drop_first());
    lemma_string_value_escaping_concat(head, s.drop_first());
    assert(head.drop_last() =~= Seq::<char>::empty());
    assert(string_value_escaping(head.drop_last()) =~= Seq::<char>::empty());
    assert(string_value_escaping(head) =~= value_piece(s[0]));
}

/// Undoing the string escapes of an escaped text followed by a closing
/// quote gives the text and the quote.
proof fn lemma_undo_string_value_escaping(x: Seq<char>)
    ensures
        undo_string_value_escaping(string_value_escaping(x) + seq!['"']) == x + seq!['"'],
    decreases x.len(),
{
    if x.len() == 0 {
        let t = seq!['"'];
        assert(string_value_escaping(x) + t =~= t);
        assert(t.subrange(1, 1) =~= Seq::<char>::empty());
        assert(undo_string_value_escaping(t.subrange(1, 1)) =~= Seq::<char>::empty());
        assert(t[0] == '"');
        assert(undo_string_value_escaping(t) =~= t);
        assert(x + t =~= t);
    } else {
        let rest = x.drop_first();
        lemma_string_value_escaping_first(x);
        lemma_undo_string_value_escaping(rest);
        let tail = string_value_escaping(rest) + seq!['"'];
        let s = value_piece(x[0]) + tail;
        assert(string_value_escaping(x) + seq!['"'] =~= s);
        if x[0] == '\\' {
            assert(s.subrange(2, s.len() as int) =~= tail);
        } else {
            assert(s.subrange(1, s.len() as int) =~= tail);
        }
        assert(undo_string_value_escaping(s) =~= x + seq!['"']);
    }
}

/// Undoing the quoting rule gives the text back.
proof fn lemma_undo_exec_quoting(x: Seq<char>)
    ensures
        undo_exec_quoting(exec_quoting(x)) == x,
    decreases x.len(),
{
    if x.len() == 0 {
        assert(exec_quoting(x) =~= Seq::<char>::empty());
    } else {
        let rest = x.drop_first();
        lemma_exec_quoting_first(x);
        lemma_undo_exec_quoting(rest);
        let tail = exec_quoting(rest);
        let s = exec_piece(x[0]) + tail;
        if exec_escaped_char(x[0]) || x[0] == '%' {
            assert(s.subrange(2, s.len() as int) =~= tail);
        } else {
            assert(s.subrange(1, s.len() as int) =~= tail);
        }
        assert(undo_exec_quoting(s) =~= x);
    }
}

/// A path without `"`, `` ` ``, `$`, `\` and `%` is quoted as it is: every
/// other character is written unchanged, only the surrounding quotes are
/// added.
pub proof fn law_plain_path_is_only_quoted(s: Seq<char>)
    requires
        forall|i: int|
            0 <= i < s.len() ==> #[trigger] s[i] != '"' && s[i] != '`' && s[i] != '$' && s[i]
                != '\\' && s[i] != '%',
    ensures
        desktop_entry_argument(s) == seq!['"'] + s + seq!['"'],
{
    lemma_plain_quoting(s);
}

proof fn lemma_plain_quoting(s: Seq<char>)
    requires
        forall|i: int|
            0 <= i < s.len() ==> #[trigger] s[i] != '"' && s[i] != '`' && s[i] != '$' && s[i]
                != '\\' && s[i] != '%',
    ensures
        exec_quoting(s) == s,
        string_value_escaping(s) == s,
    decreases s.len(),
{
    if s.len() > 0 {
        let rest = s.drop_last();
        assert forall|i: int| 0 <= i < rest.len() implies #[trigger] rest[i] != '"' && rest[i]
            != '`' && rest[i] != '$' && rest[i] != '\\' && rest[i] != '%' by {
            assert(rest[i] == s[i]);
        }
        lemma_plain_quoting(rest);
        let c = s.last();
        assert(c == s[s.len() - 1]);
        assert(exec_quoting(s) =~= s);
        assert(string_value_escaping(s) =~= s);
    }
}

/// The quoting works character by character: the quoted value of two texts
/// one after the other is the two quoted values one after the other, between
/// one pair of quotes.
pub proof fn law_quoting_is_per_character(a: Seq<char>, b: Seq<char>)
    ensures
        string_value_escaping(exec_quoting(a + b)) == string_value_escaping(exec_quoting(a))
            + string_value_escaping(exec_quoting(b)),
        desktop_entry_argument(a + b) == seq!['"'] + string_value_escaping(exec_quoting(a))
            + string_value_escaping(exec_quoting(b)) + seq!['"'],
{
    lemma_exec_quoting_concat(a, b);
    lemma_string_value_escaping_concat(exec_quoting(a), exec_quoting(b));
}

/// Each reserved character gets exactly one backslash before it from the
/// quoting rule, `%` is doubled, and the string escape then doubles every
/// backslash.
pub proof fn law_reserved_characters_are_escaped(c: char)
    ensures
        (c == '"' || c == '`' || c == '$') ==> desktop_entry_argument(seq![c]) == seq![
            '"',
            '\\',
            '\\',
            c,
            '"',
        ],
        c == '\\' ==> desktop_entry_argument(seq![c]) == seq!['"', '\\', '\\', '\\', '\\', '"'],
        c == '%' ==> desktop_entry_argument(seq![c]) == seq!['"', '%', '%', '"'],
{
    let single = seq![c];
    assert(single.drop_last() =~= Seq::<char>::empty());
    assert(single.last() == c);
    assert(exec_quoting(single.drop_last()) =~= Seq::<char>::empty());
    let q = exec_quoting(single);
    if c == '"' || c == '`' || c == '$' || c == '\\' {
        assert(q =~= seq!['\\', c]);
        assert(q.drop_last() =~= seq!['\\']);
        assert(q.drop_last().drop_last() =~= Seq::<char>::empty());
        assert(string_value_escaping(q.drop_last().drop_last()) =~= Seq::<char>::empty());
        assert(string_value_escaping(q.drop_last()) =~= seq!['\\', '\\']);
    } else if c == '%' {
        assert(q =~= seq!['%', '%']);
        assert(q.drop_last() =~= seq!['%']);
        assert(q.drop_last().drop_last() =~= Seq::<char>::empty());
        assert(string_value_escaping(q.drop_last().drop_last()) =~= Seq::<char>::empty());
        assert(string_value_escaping(q.drop_last()) =~= seq!['%']);
    }
    assert(c == '"' || c == '`' || c == '$' ==> desktop_entry_argument(single) =~= seq![
        '"',
        '\\',
        '\\',
        c,
        '"',
    ]);
    assert(c == '\\' ==> desktop_entry_argument(single) =~= seq![
        '"',
        '\\',
        '\\',
        '\\',
        '\\',
        '"',
    ]);
    assert(c == '%' ==> desktop_entry_argument(single) =~= seq!['"', '%', '%', '"']);
}

/// A reader of the `.desktop` file that follows the Desktop Entry
/// Specification (string escapes undone first, then the `Exec` quoting)
/// gets back exactly the path that was quoted.
pub proof fn law_desktop_entry_argument_reads_back(s: Seq<char>)
    ensures
        read_exec_argument(desktop_entry_argument(s)) == s,
{
    let q = exec_quoting(s);
    let value = desktop_entry_argument(s);
    lemma_undo_string_value_escaping(q);
    lemma_undo_exec_quoting(s);
    let inner = string_value_escaping(q) + seq!['"'];
    assert(value =~= seq!['"'] + inner);
    assert(value.subrange(1, value.len() as int) =~= inner);
    assert(undo_string_value_escaping(value) =~= seq!['"'] + undo_string_value_escaping(inner));
    let unescaped = undo_string_value_escaping(value);
    assert(unescaped =~= seq!['"'] + q + seq!['"']);
    assert(unescaped.subrange(1, unescaped.len() - 1) =~= q);
}

} // verus!
