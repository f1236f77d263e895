//! Paste-ready renderings of a patch for the `print` subcommand: TOML
//! tables, Nix attribute sets and command-line flags.  A patch arrives
//! as its parameters in order, each with the decimal text of its value.

use vstd::prelude::*;
use crate::nix::{float_text, float_literal};
use crate::text::{push_char, chars_of, owned, concat_str, views_of};

verus! {

/// The command-line flag name of a parameter: underscores become
/// hyphens.
pub open spec fn flag_spec(name: Seq<char>) -> Seq<char> {
    name.map_values(|c: char| if c == '_' { '-' } else { c })
}

/// The items joined by `sep`.
pub open spec fn joined(items: Seq<Seq<char>>, sep: Seq<char>) -> Seq<char>
    decreases items.len(),
{
    if items.len() == 0 {
        Seq::empty()
    } else if items.len() == 1 {
        items[0]
    } else {
        joined(items.drop_last(), sep) + sep + items.last()
    }
}

/// The flag and value of one parameter.
pub open spec fn cli_item(name: Seq<char>, value: Seq<char>) -> Seq<char> {
    "--"@ + flag_spec(name) + " "@ + value
}

/// The parameters as `--flag value` items.
pub open spec fn cli_items(params: Seq<(String, String)>) -> Seq<Seq<char>> {
    params.map_values(|p: (String, String)| cli_item(p.0@, p.1@))
}

/// One `name = value` TOML line; the value reads as a float.
pub open spec fn toml_line(name: Seq<char>, value: Seq<char>) -> Seq<char> {
    name + " = "@ + float_text(value)
}

/// One `  name = value;` Nix line; the value reads as a float.
pub open spec fn nix_line(name: Seq<char>, value: Seq<char>) -> Seq<char> {
    "  "@ + name + " = "@ + float_text(value) + ";"@
}

/// The command-line flag name of a parameter.
pub fn flag_name(name: &str) -> (r: String)
    ensures
        r@ == flag_spec(name@),
{
    let v = chars_of(name);
    let mut r = String::new();
    let mut i: usize = 0;
    while i < v.len()
        invariant
            v@ == name@,
            i <= v@.len(),
            r@ == flag_spec(v@.take(i as int)),
        decreases v@.len() - i,
    {
        let c = v[i];
        push_char(&mut r, if c == '_' { '-' } else { c });
        proof {
            assert(flag_spec(v@.take(i + 1)) =~= flag_spec(v@.take(i as int)).push(
                if c == '_' { '-' } else { c },
            ));
        }
        i = i + 1;
    }
    proof {
        assert(v@.take(v@.len() as int) =~= v@);
    }
    r
}

/// The strings joined by `sep`.
pub fn join(items: &Vec<String>, sep: &str) -> (r: String)
    ensures
        r@ == joined(views_of(items@), sep@),
{
    let ghost iv = views_of(items@);
    let mut r = String::new();
    let mut i: usize = 0;
    while i < items.len()
        invariant
            iv == views_of(items@),
            i <= items@.len(),
            r@ == joined(iv.take(i as int), sep@),
        decreases items@.len() - i,
    {
        proof {
            assert(iv.take(i + 1).drop_last() =~= iv.take(i as int));
            assert(iv.take(i + 1).last() == items@[i as int]@);
        }
        if i == 0 {
            r = owned(items[i].as_str());
            proof {
                assert(iv.take(1) =~= seq![iv[0]]);
            }
        } else {
            r = concat_str(r.as_str(), sep);
            r = concat_str(r.as_str(), items[i].as_str());
        }
        i = i + 1;
    }
    proof {
        assert(iv.take(items@.len() as int) =~= iv);
    }
    r
}

/// The parameters as command-line flags, `--flag value` separated by
/// spaces, ready to paste after `preview` or `print`.
pub fn format_cli(params: &Vec<(String, String)>) -> (r: String)
    ensures
        r@ == joined(cli_items(params@), " "@),
{
    let mut items: Vec<String> = Vec::new();
    let mut i: usize = 0;
    while i < params.len()
        invariant
            i <= params@.len(),
            views_of(items@) == cli_items(params@).take(i as int),
        decreases params@.len() - i,
    {
        let flag = flag_name(params[i].0.as_str());
        let item = concat_str("--", flag.as_str());
        let item = concat_str(item.as_str(), " ");
        let item = concat_str(item.as_str(), params[i].1.as_str());
        let ghost before = items@;
        items.push(item);
        proof {
            assert(views_of(items@) =~= views_of(before).push(cli_item(params@[i as int].0@, params@[i as int].1@)));
            assert(cli_items(params@).take(i + 1) =~= cli_items(params@).take(i as int).push(
                cli_item(params@[i as int].0@, params@[i as int].1@),
            ));
        }
        i = i + 1;
    }
    proof {
        assert(cli_items(params@).take(params@.len() as int) =~= cli_items(params@));
    }
    join(&items, " ")
}

/// Append a patch as a TOML table: the `[header]` line, then one
/// `name = value` line per parameter.
pub fn patch_toml_lines(lines: &mut Vec<String>, header: &str, params: &Vec<(String, String)>)
    ensures
        views_of(final(lines)@) == views_of(old(lines)@) + seq!["["@ + header@ + "]"@] + params@.map_values(
            |p: (String, String)| toml_line(p.0@, p.1@),
        ),
{
    let ghost start = views_of(lines@);
    let h = concat_str("[", header);
    let ghost before_head = lines@;
    lines.push(concat_str(h.as_str(), "]"));
    proof {
        assert(views_of(lines@) =~= views_of(before_head).push("["@ + header@ + "]"@));
    }
    let ghost head = views_of(lines@);
    let mut i: usize = 0;
    while i < params.len()
        invariant
            i <= params@.len(),
            head == start + seq!["["@ + header@ + "]"@],
            views_of(lines@) == head + params@.take(i as int).map_values(
                |p: (String, String)| toml_line(p.0@, p.1@),
            ),
        decreases params@.len() - i,
    {
        let value = float_literal(params[i].1.as_str());
        let line = concat_str(params[i].0.as_str(), " = ");
        let line = concat_str(line.as_str(), value.as_str());
        let ghost before = lines@;
        lines.push(line);
        proof {
            assert(views_of(lines@) =~= views_of(before).push(toml_line(params@[i as int].0@, params@[i as int].1@)));
            assert(params@.take(i + 1).map_values(|p: (String, String)| toml_line(p.0@, p.1@))
                =~= params@.take(i as int).map_values(|p: (String, String)| toml_line(p.0@, p.1@)).push(
                toml_line(params@[i as int].0@, params@[i as int].1@),
            ));
        }
        i = i + 1;
    }
    proof {
        assert(params@.take(params@.len() as int) =~= params@);
    }
}

/// Append a patch as a Nix attribute set: `prefix = {`, one
/// `  name = value;` line per parameter, and `};`.
pub fn patch_nix_lines(lines: &mut Vec<String>, prefix: &str, params: &Vec<(String, String)>)
    ensures
        views_of(final(lines)@) == views_of(old(lines)@) + seq![prefix@ + " = {"@] + params@.map_values(
            |p: (String, String)| nix_line(p.0@, p.1@),
        ) + seq!["};"@],
{
    let ghost start = views_of(lines@);
    let ghost before_head = lines@;
    lines.push(concat_str(prefix, " = {"));
    proof {
        assert(views_of(lines@) =~= views_of(before_head).push(prefix@ + " = {"@));
    }
    let ghost head = views_of(lines@);
    let mut i: usize = 0;
    while i < params.len()
        invariant
            i <= params@.len(),
            head == start + seq![prefix@ + " = {"@],
            views_of(lines@) == head + params@.take(i as int).map_values(
                |p: (String, String)| nix_line(p.0@, p.1@),
            ),
        decreases params@.len() - i,
    {
        let value = float_literal(params[i].1.as_str());
        let line = concat_str("  ", params[i].0.as_str());
        let line = concat_str(line.as_str(), " = ");
        let line = concat_str(line.as_str(), value.as_str());
        let line = concat_str(line.as_str(), ";");
        let ghost before = lines@;
        lines.push(line);
        proof {
            assert(views_of(lines@) =~= views_of(before).push(nix_line(params@[i as int].0@, params@[i as int].1@)));
            assert(params@.take(i + 1).map_values(|p: (String, String)| nix_line(p.0@, p.1@))
                =~= params@.take(i as int).map_values(|p: (String, String)| nix_line(p.0@, p.1@)).push(
                nix_line(params@[i as int].0@, params@[i as int].1@),
            ));
        }
        i = i + 1;
    }
    proof {
        assert(params@.take(params@.len() as int) =~= params@);
    }
    let ghost before_tail = lines@;
    lines.push(owned("};"));
    proof {
        assert(views_of(lines@) =~= views_of(before_tail).push("};"@));
    }
}

} // verus!
