//! Export of configuration values as Nix expressions: the attribute-set
//! body written by the "export as Nix" action.  Values arrive as a
//! tree whose numbers are already rendered as decimal text.

use vstd::prelude::*;
use crate::text::{chars_of, push_char, owned, concat_str};

verus! {

/// A configuration value to be exported.  Numbers carry the decimal
/// text of the value (as Rust displays a float); object entries keep
/// their order.
#[derive(Debug)]
pub enum ExportValue {
    Null,
    Bool(bool),
    Number(String),
    Text(String),
    Array(Vec<ExportValue>),
    Object(Vec<(String, ExportValue)>),
}

/// The escaped form of one character of a Nix double-quoted string;
/// `next` is the character after it, if any.
pub open spec fn escape_char(c: char, next: Option<char>) -> Seq<char> {
    if c == '\\' {
        seq!['\\', '\\']
    } else if c == '"' {
        seq!['\\', '"']
    } else if c == '$' && next == Some('{') {
        seq!['\\', '$']
    } else {
        seq![c]
    }
}

/// Escape a string for a Nix double-quoted literal: backslashes,
/// double quotes and the `${` interpolation opener are escaped.
pub open spec fn nix_escape_spec(s: Seq<char>) -> Seq<char>
    decreases s.len(),
{
    if s.len() == 0 {
        Seq::empty()
    } else {
        let next = if s.len() > 1 { Some(s[1]) } else { None };
        escape_char(s[0], next) + nix_escape_spec(s.drop_first())
    }
}

/// A character that may start a bare Nix attribute name.
pub open spec fn is_attr_start(c: char) -> bool {
    ('a' <= c && c <= 'z') || ('A' <= c && c <= 'Z') || c == '_'
}

/// A character that may continue a bare Nix attribute name.
pub open spec fn is_attr_char(c: char) -> bool {
    is_attr_start(c) || ('0' <= c && c <= '9') || c == '-' || c == '\''
}

/// Whether a name can stand as a bare attribute name.
pub open spec fn is_bare_attr(name: Seq<char>) -> bool {
    name.len() > 0 && is_attr_start(name[0]) && forall|i: int| 0 <= i < name.len() ==> is_attr_char(name[i])
}

/// A string as a Nix attribute name: bare when valid, quoted otherwise.
pub open spec fn nix_attr_spec(name: Seq<char>) -> Seq<char> {
    if is_bare_attr(name) {
        name
    } else {
        seq!['"'] + nix_escape_spec(name) + seq!['"']
    }
}

/// Decimal text of a float made to read as a float: a `.0` is appended
/// when it has no decimal point and no exponent.
pub open spec fn float_text(t: Seq<char>) -> Seq<char> {
    if t.contains('.') || t.contains('e') || t.contains('E') {
        t
    } else {
        t + ".0"@
    }
}

/// The rendering of a value at indentation `pad`.
pub open spec fn nix_value_spec(v: ExportValue, pad: Seq<char>) -> Seq<char>
    decreases v, 0int,
{
    match v {
        ExportValue::Null => "null"@,
        ExportValue::Bool(b) => if b { "true"@ } else { "false"@ },
        ExportValue::Number(t) => float_text(t@),
        ExportValue::Text(s) => seq!['"'] + nix_escape_spec(s@) + seq!['"'],
        ExportValue::Array(items) => if items@.len() == 0 {
            "[ ]"@
        } else {
            "[\n"@ + array_lines(items@, pad + "  "@, items@.len() as int) + "\n"@ + pad + "]"@
        },
        ExportValue::Object(entries) => if entries@.len() == 0 {
            "{ }"@
        } else {
            "{\n"@ + object_lines(entries@, pad + "  "@, entries@.len() as int) + "\n"@ + pad + "}"@
        },
    }
}

/// The first `k` array items, one per line at indentation `inner`.
pub open spec fn array_lines(items: Seq<ExportValue>, inner: Seq<char>, k: int) -> Seq<char>
    decreases items, k,
{
    if k <= 0 || k > items.len() {
        Seq::empty()
    } else {
        let line = inner + nix_value_spec(items[k - 1], inner);
        if k == 1 {
            line
        } else {
            array_lines(items, inner, k - 1) + "\n"@ + line
        }
    }
}

/// The first `k` object entries, one `name = value;` per line at
/// indentation `inner`.
pub open spec fn object_lines(entries: Seq<(String, ExportValue)>, inner: Seq<char>, k: int) -> Seq<char>
    decreases entries, k,
{
    if k <= 0 || k > entries.len() {
        Seq::empty()
    } else {
        let line = inner + nix_attr_spec(entries[k - 1].0@) + " = "@ + nix_value_spec(entries[k - 1].1, inner)
            + ";"@;
        if k == 1 {
            line
        } else {
            object_lines(entries, inner, k - 1) + "\n"@ + line
        }
    }
}

/// The top-level attribute-set body: one `name = value;` per line for
/// an object, the plain rendering for anything else.
pub open spec fn nix_body_spec(v: ExportValue) -> Seq<char> {
    match v {
        ExportValue::Object(entries) => object_lines(entries@, Seq::empty(), entries@.len() as int),
        _ => nix_value_spec(v, Seq::empty()),
    }
}

fn push_str(s: &mut String, t: &str)
    ensures
        final(s)@ == old(s)@ + t@,
{
    s.append(t);
}

/// Escape a string for a Nix double-quoted literal.
pub fn nix_escape(s: &str) -> (r: String)
    ensures
        r@ == nix_escape_spec(s@),
{
    let v = chars_of(s);
    let n = v.len();
    let mut out = String::new();
    let mut i: usize = n;
    while i > 0
        invariant
            i <= n,
            n == v@.len(),
            v@ == s@,
            out@ == nix_escape_spec(v@.subrange(i as int, n as int)),
        decreases i,
    {
        i = i - 1;
        let c = v[i];
        let next_is_brace = i + 1 < n && v[i + 1] == '{';
        let mut piece = String::new();
        if c == '\\' {
            push_char(&mut piece, '\\');
            push_char(&mut piece, '\\');
        } else if c == '"' {
            push_char(&mut piece, '\\');
            push_char(&mut piece, '"');
        } else if c == '$' && next_is_brace {
            push_char(&mut piece, '\\');
            push_char(&mut piece, '$');
        } else {
            push_char(&mut piece, c);
        }
        proof {
            let tail = v@.subrange(i as int, n as int);
            assert(tail.drop_first() =~= v@.subrange(i + 1, n as int));
            assert(tail[0] == c);
            if tail.len() > 1 {
                assert(tail[1] == v@[i + 1]);
            }
            let next = if tail.len() > 1 { Some(tail[1]) } else { None };
            assert(piece@ =~= escape_char(c, next));
        }
        push_str(&mut piece, out.as_str());
        out = piece;
    }
    assert(v@.subrange(0, n as int) =~= s@);
    out
}

fn is_attr_start_char(c: char) -> (r: bool)
    ensures
        r == is_attr_start(c),
{
    ('a' <= c && c <= 'z') || ('A' <= c && c <= 'Z') || c == '_'
}

fn is_attr_cont_char(c: char) -> (r: bool)
    ensures
        r == is_attr_char(c),
{
    is_attr_start_char(c) || ('0' <= c && c <= '9') || c == '-' || c == '\''
}

/// Format a string as a Nix attribute name, quoting it when it is not
/// a valid bare identifier.
pub fn nix_attr(name: &str) -> (r: String)
    ensures
        r@ == nix_attr_spec(name@),
{
    let v = chars_of(name);
    let mut valid = v.len() > 0 && is_attr_start_char(v[0]);
    let mut i: usize = 0;
    while i < v.len()
        invariant
            v@ == name@,
            i <= v.len(),
            valid == (v@.len() > 0 && is_attr_start(v@[0]) && forall|j: int| 0 <= j < i ==> is_attr_char(v@[j])),
        decreases v.len() - i,
    {
        valid = valid && is_attr_cont_char(v[i]);
        i = i + 1;
    }
    if valid {
        owned(name)
    } else {
        let mut r = String::new();
        push_char(&mut r, '"');
        let e = nix_escape(name);
        push_str(&mut r, e.as_str());
        push_char(&mut r, '"');
        r
    }
}

fn contains_char(v: &Vec<char>, c: char) -> (r: bool)
    ensures
        r == v@.contains(c),
{
    let mut i: usize = 0;
    while i < v.len()
        invariant
            i <= v.len(),
            forall|j: int| 0 <= j < i ==> v@[j] != c,
        decreases v.len() - i,
    {
        if v[i] == c {
            assert(v@[i as int] == c);
            return true;
        }
        i = i + 1;
    }
    false
}

/// Make the decimal text of a float read as a float in Nix and TOML by
/// appending `.0` when it has no decimal point and no exponent.
pub fn float_literal(t: &str) -> (r: String)
    ensures
        r@ == float_text(t@),
{
    let v = chars_of(t);
    if contains_char(&v, '.') || contains_char(&v, 'e') || contains_char(&v, 'E') {
        owned(t)
    } else {
        concat_str(t, ".0")
    }
}

fn render(val: &ExportValue, pad: &String) -> (r: String)
    ensures
        r@ == nix_value_spec(*val, pad@),
    decreases *val,
{
    match val {
        ExportValue::Null => owned("null"),
        ExportValue::Bool(b) => if *b { owned("true") } else { owned("false") },
        ExportValue::Number(t) => float_literal(t.as_str()),
        ExportValue::Text(s) => {
            let mut r = String::new();
            push_char(&mut r, '"');
            let e = nix_escape(s.as_str());
            push_str(&mut r, e.as_str());
            push_char(&mut r, '"');
            r
        },
        ExportValue::Array(items) => {
            if items.len() == 0 {
                return owned("[ ]");
            }
            let inner = concat_str(pad.as_str(), "  ");
            let mut body = String::new();
            let mut j: usize = 0;
            while j < items.len()
                invariant
                    j <= items@.len(),
                    *val == ExportValue::Array(*items),
                    inner@ == pad@ + "  "@,
                    body@ == array_lines(items@, inner@, j as int),
                decreases items@.len() - j,
            {
                if j > 0 {
                    push_str(&mut body, "\n");
                }
                push_str(&mut body, inner.as_str());
                proof {
                    assert(decreases_to!(*val => (*val)->Array_0));
                    assert(decreases_to!(*items => items@));
                    assert(decreases_to!(items@ => items@[j as int]));
                }
                let line = render(&items[j], &inner);
                push_str(&mut body, line.as_str());
                j = j + 1;
            }
            let r = concat_str("[\n", body.as_str());
            let r = concat_str(r.as_str(), "\n");
            let r = concat_str(r.as_str(), pad.as_str());
            concat_str(r.as_str(), "]")
        },
        ExportValue::Object(entries) => {
            if entries.len() == 0 {
                return owned("{ }");
            }
            let inner = concat_str(pad.as_str(), "  ");
            let mut body = String::new();
            let mut j: usize = 0;
            while j < entries.len()
                invariant
                    j <= entries@.len(),
                    *val == ExportValue::Object(*entries),
                    inner@ == pad@ + "  "@,
                    body@ == object_lines(entries@, inner@, j as int),
                decreases entries@.len() - j,
            {
                if j > 0 {
                    push_str(&mut body, "\n");
                }
                push_str(&mut body, inner.as_str());
                let name = nix_attr(entries[j].0.as_str());
                push_str(&mut body, name.as_str());
                push_str(&mut body, " = ");
                proof {
                    assert(decreases_to!(*val => (*val)->Object_0));
                    assert(decreases_to!(*entries => entries@));
                    assert(decreases_to!(entries@ => entries@[j as int]));
                    assert(decreases_to!(entries@[j as int] => entries@[j as int].1));
                }
                let line = render(&entries[j].1, &inner);
                push_str(&mut body, line.as_str());
                push_str(&mut body, ";");
                j = j + 1;
            }
            let r = concat_str("{\n", body.as_str());
            let r = concat_str(r.as_str(), "\n");
            let r = concat_str(r.as_str(), pad.as_str());
            concat_str(r.as_str(), "}")
        },
    }
}

/// The padding of `indent` levels: two spaces per level.
pub open spec fn indent_pad(indent: nat) -> Seq<char>
    decreases indent,
{
    if indent == 0 {
        Seq::empty()
    } else {
        indent_pad((indent - 1) as nat) + "  "@
    }
}

/// Convert a value to Nix expression syntax at the given indentation
/// level (two spaces per level): arrays and attribute sets span one
/// line per element, empty ones render as `[ ]` and `{ }`.
pub fn nix_value(val: &ExportValue, indent: usize) -> (r: String)
    ensures
        r@ == nix_value_spec(*val, indent_pad(indent as nat)),
{
    let mut pad = String::new();
    let mut i: usize = 0;
    while i < indent
        invariant
            i <= indent,
            pad@ == indent_pad(i as nat),
        decreases indent - i,
    {
        push_str(&mut pad, "  ");
        i = i + 1;
    }
    render(val, &pad)
}

/// Convert a top-level value to a Nix attribute-set body (without the
/// outer braces): one `name = value;` line per entry of an object.
pub fn nix_body(val: &ExportValue) -> (r: String)
    ensures
        r@ == nix_body_spec(*val),
{
    match val {
        ExportValue::Object(entries) => {
            let pad = String::new();
            let mut body = String::new();
            let mut j: usize = 0;
            while j < entries.len()
                invariant
                    j <= entries@.len(),
                    pad@ == Seq::<char>::empty(),
                    body@ == object_lines(entries@, pad@, j as int),
                decreases entries@.len() - j,
            {
                if j > 0 {
                    push_str(&mut body, "\n");
                }
                let name = nix_attr(entries[j].0.as_str());
                push_str(&mut body, name.as_str());
                push_str(&mut body, " = ");
                let line = render(&entries[j].1, &pad);
                push_str(&mut body, line.as_str());
                push_str(&mut body, ";");
                proof {
                    assert(Seq::<char>::empty() + nix_attr_spec(entries@[j as int].0@) =~= nix_attr_spec(
                        entries@[j as int].0@,
                    ));
                }
                j = j + 1;
            }
            body
        },
        _ => {
            let pad = String::new();
            render(val, &pad)
        },
    }
}

proof fn lemma_array_lines_joined(
    items: Seq<ExportValue>,
    inner: Seq<char>,
    f: spec_fn(int) -> Seq<char>,
    k: int,
)
    requires
        0 <= k <= items.len(),
        forall|i: int|
            0 <= i < items.len() ==> #[trigger] f(i) == (if i == 0 {
                Seq::<char>::empty()
            } else {
                "\n"@
            }) + inner + nix_value_spec(items[i], inner),
    ensures
        array_lines(items, inner, k) == Seq::new(k as nat, f).flatten_alt(),
    decreases k,
{
    if k > 0 {
        lemma_array_lines_joined(items, inner, f, k - 1);
        let s = Seq::new(k as nat, f);
        assert(s.drop_last() =~= Seq::new((k - 1) as nat, f));
        assert(s.last() == f(k - 1));
        let line = inner + nix_value_spec(items[k - 1], inner);
        if k == 1 {
            assert(f(0) =~= line);
            assert(Seq::new(0nat, f).flatten_alt() =~= Seq::<char>::empty());
            assert(s.flatten_alt() =~= line);
        } else {
            assert(f(k - 1) =~= "\n"@ + line);
            assert(array_lines(items, inner, k) =~= array_lines(items, inner, k - 1) + ("\n"@ + line));
        }
    }
}

proof fn lemma_object_lines_joined(
    entries: Seq<(String, ExportValue)>,
    inner: Seq<char>,
    f: spec_fn(int) -> Seq<char>,
    k: int,
)
    requires
        0 <= k <= entries.len(),
        forall|i: int|
            0 <= i < entries.len() ==> #[trigger] f(i) == (if i == 0 {
                Seq::<char>::empty()
            } else {
                "\n"@
            }) + inner + nix_attr_spec(entries[i].0@) + " = "@ + nix_value_spec(entries[i].1, inner) + ";"@,
    ensures
        object_lines(entries, inner, k) == Seq::new(k as nat, f).flatten_alt(),
    decreases k,
{
    if k > 0 {
        lemma_object_lines_joined(entries, inner, f, k - 1);
        let s = Seq::new(k as nat, f);
        assert(s.drop_last() =~= Seq::new((k - 1) as nat, f));
        assert(s.last() == f(k - 1));
        let line = inner + nix_attr_spec(entries[k - 1].0@) + " = "@ + nix_value_spec(entries[k - 1].1, inner)
            + ";"@;
        if k == 1 {
            assert(f(0) =~= line);
            assert(Seq::new(0nat, f).flatten_alt() =~= Seq::<char>::empty());
            assert(s.flatten_alt() =~= line);
        } else {
            assert(f(k - 1) =~= "\n"@ + line);
            assert(object_lines(entries, inner, k) =~= object_lines(entries, inner, k - 1) + ("\n"@ + line));
        }
    }
}

/// A non-empty array renders as `[`, then every item in order, each on
/// a line of its own indented one level deeper (the lines joined by
/// newlines), then `]` at the array's own indentation.
pub proof fn lemma_array_renders_every_item(items: Vec<ExportValue>, pad: Seq<char>)
    requires
        items@.len() > 0,
    ensures
        nix_value_spec(ExportValue::Array(items), pad) == "[\n"@ + Seq::new(
            items@.len(),
            |i: int|
                (if i == 0 {
                    Seq::<char>::empty()
                } else {
                    "\n"@
                }) + pad + "  "@ + nix_value_spec(items@[i], pad + "  "@),
        ).flatten() + "\n"@ + pad + "]"@,
{
    let inner = pad + "  "@;
    let f = |i: int|
        (if i == 0 {
            Seq::<char>::empty()
        } else {
            "\n"@
        }) + pad + "  "@ + nix_value_spec(items@[i], pad + "  "@);
    assert forall|i: int| 0 <= i < items@.len() implies #[trigger] f(i) == (if i == 0 {
        Seq::<char>::empty()
    } else {
        "\n"@
    }) + inner + nix_value_spec(items@[i], inner) by {
        assert(f(i) =~= (if i == 0 {
            Seq::<char>::empty()
        } else {
            "\n"@
        }) + inner + nix_value_spec(items@[i], inner));
    }
    lemma_array_lines_joined(items@, inner, f, items@.len() as int);
    Seq::new(items@.len(), f).lemma_flatten_and_flatten_alt_are_equivalent();
}

/// A non-empty attribute set renders as `{`, then every entry in order,
/// each as `name = value;` on a line of its own indented one level
/// deeper (the lines joined by newlines), then `}` at the set's own
/// indentation.
pub proof fn lemma_object_renders_every_entry(entries: Vec<(String, ExportValue)>, pad: Seq<char>)
    requires
        entries@.len() > 0,
    ensures
        nix_value_spec(ExportValue::Object(entries), pad) == "{\n"@ + Seq::new(
            entries@.len(),
            |i: int|
                (if i == 0 {
                    Seq::<char>::empty()
                } else {
                    "\n"@
                }) + pad + "  "@ + nix_attr_spec(entries@[i].0@) + " = "@ + nix_value_spec(
                    entries@[i].1,
                    pad + "  "@,
                ) + ";"@,
        ).flatten() + "\n"@ + pad + "}"@,
{
    let inner = pad + "  "@;
    let f = |i: int|
        (if i == 0 {
            Seq::<char>::empty()
        } else {
            "\n"@
        }) + pad + "  "@ + nix_attr_spec(entries@[i].0@) + " = "@ + nix_value_spec(entries@[i].1, pad + "  "@)
            + ";"@;
    assert forall|i: int| 0 <= i < entries@.len() implies #[trigger] f(i) == (if i == 0 {
        Seq::<char>::empty()
    } else {
        "\n"@
    }) + inner + nix_attr_spec(entries@[i].0@) + " = "@ + nix_value_spec(entries@[i].1, inner) + ";"@ by {
        assert(f(i) =~= (if i == 0 {
            Seq::<char>::empty()
        } else {
            "\n"@
        }) + inner + nix_attr_spec(entries@[i].0@) + " = "@ + nix_value_spec(entries@[i].1, inner) + ";"@);
    }
    lemma_object_lines_joined(entries@, inner, f, entries@.len() as int);
    Seq::new(entries@.len(), f).lemma_flatten_and_flatten_alt_are_equivalent();
}

} // verus!
