//! The text of the command-line client: its command catalog, observation
//! routes inferred from resources, the checks on command arguments, and
//! line-safe and JSON escaping.
use vstd::prelude::*;

use crate::text::{append_hex_width, append_str, chars_of, hex_fixed, is_prefix, owned, push_char, str_eq};

verus! {

/// One command of the client.
#[derive(Clone, Copy, Debug, PartialEq, Eq)]
pub struct CommandInfo {
    pub name: &'static str,
    pub summary: &'static str,
    pub offline: bool,
}

/// The catalog entries, as name, summary and whether the command works offline.
#[verifier::opaque]
pub open spec fn command_catalog() -> Seq<(Seq<char>, Seq<char>, bool)> {
    seq![
        ("version"@, "Show Linura and protocol version"@, true),
        ("commands"@, "List machine-readable CLI command metadata"@, true),
        ("whoami"@, "Show the authenticated local D-Bus caller identity"@, false),
        ("capabilities"@, "List observation providers, health, and capabilities"@, false),
        ("observe"@, "Read authoritative current state for one resource"@, false),
        ("graph"@, "Show the current observed causal system graph"@, false),
        ("explain"@, "Explain the authoritative evidence for one resource"@, false),
        ("help"@, "Show CLI help"@, true),
    ]
}

/// The texts of a command.
pub open spec fn command_view(c: CommandInfo) -> (Seq<char>, Seq<char>, bool) {
    (c.name@, c.summary@, c.offline)
}

/// The client's commands, in the order help lists them.
pub fn commands() -> (r: Vec<CommandInfo>)
    ensures
        r@.len() == command_catalog().len(),
        forall|i: int| 0 <= i < r@.len() ==> command_view(#[trigger] r@[i]) == command_catalog()[i],
{
    let v = vec![
        CommandInfo { name: "version", summary: "Show Linura and protocol version", offline: true },
        CommandInfo { name: "commands", summary: "List machine-readable CLI command metadata", offline: true },
        CommandInfo { name: "whoami", summary: "Show the authenticated local D-Bus caller identity", offline: false },
        CommandInfo { name: "capabilities", summary: "List observation providers, health, and capabilities", offline: false },
        CommandInfo { name: "observe", summary: "Read authoritative current state for one resource", offline: false },
        CommandInfo { name: "graph", summary: "Show the current observed causal system graph", offline: false },
        CommandInfo { name: "explain", summary: "Explain the authoritative evidence for one resource", offline: false },
        CommandInfo { name: "help", summary: "Show CLI help", offline: true },
    ];
    proof {
        reveal(command_catalog);
        assert forall|i: int| 0 <= i < v@.len() implies command_view(#[trigger] v@[i]) == command_catalog()[i] by {
            if i == 0 {} else if i == 1 {} else if i == 2 {} else if i == 3 {} else if i == 4 {} else if i == 5 {} else if i == 6 {} else {}
        }
    }
    v
}

/// The provider and capability that observe a resource, when its name says.
pub open spec fn route_for(resource: Seq<char>) -> Option<(Seq<char>, Seq<char>)> {
    if is_prefix("systemd:unit:"@, resource) {
        Some(("systemd"@, "systemd.unit.observe"@))
    } else if resource == "networkmanager:manager"@ {
        Some(("networkmanager"@, "networkmanager.manager.observe"@))
    } else if is_prefix("networkmanager:device:"@, resource) {
        Some(("networkmanager"@, "networkmanager.device.observe"@))
    } else {
        None
    }
}

/// How one character is written in line-safe output.
pub open spec fn line_escape(c: char) -> Seq<char> {
    if c == '\\' {
        "\\\\"@
    } else if c == '\n' {
        "\\n"@
    } else if c == '\r' {
        "\\r"@
    } else if c == '\t' {
        "\\t"@
    } else {
        seq![c]
    }
}

/// A text written line-safe: backslash and line breaks escaped.
pub open spec fn line_escaped(s: Seq<char>) -> Seq<char>
    decreases s.len(),
{
    if s.len() == 0 {
        Seq::empty()
    } else {
        line_escaped(s.drop_last()) + line_escape(s.last())
    }
}

/// How one character is written inside a JSON string.
pub open spec fn json_escape(c: char) -> Seq<char> {
    if c == '"' {
        "\\\""@
    } else if c == '\\' {
        "\\\\"@
    } else if c == '\u{08}' {
        "\\b"@
    } else if c == '\u{0c}' {
        "\\f"@
    } else if c == '\n' {
        "\\n"@
    } else if c == '\r' {
        "\\r"@
    } else if c == '\t' {
        "\\t"@
    } else if (c as u32) <= 0x1f {
        "\\u"@ + hex_fixed(c as u32 as nat, 4)
    } else {
        seq![c]
    }
}

/// The escaped characters of a JSON string body.
pub open spec fn json_body(s: Seq<char>) -> Seq<char>
    decreases s.len(),
{
    if s.len() == 0 {
        Seq::empty()
    } else {
        json_body(s.drop_last()) + json_escape(s.last())
    }
}

/// A text as a JSON string literal.
pub open spec fn json_quoted(s: Seq<char>) -> Seq<char> {
    "\""@ + json_body(s) + "\""@
}

/// A command as a JSON object.
pub open spec fn command_json(c: (Seq<char>, Seq<char>, bool)) -> Seq<char> {
    "{\"name\":"@ + json_quoted(c.0) + ",\"summary\":"@ + json_quoted(c.1) + ",\"offline\":"@ + (if c.2 {
        "true"@
    } else {
        "false"@
    }) + "}"@
}

/// Command objects joined by commas.
pub open spec fn commands_json_body(cs: Seq<(Seq<char>, Seq<char>, bool)>) -> Seq<char>
    decreases cs.len(),
{
    if cs.len() == 0 {
        Seq::empty()
    } else if cs.len() == 1 {
        command_json(cs[0])
    } else {
        commands_json_body(cs.drop_last()) + ","@ + command_json(cs.last())
    }
}

/// Why no observation route can be inferred for a resource.
pub open spec fn route_error(resource: Seq<char>) -> Seq<char> {
    "cannot infer an observation provider for "@ + crate::text::debug_quoted(resource)
        + "; use `linuractl observe <provider> <capability> <resource>`"@
}

/// Infers the observation route of a resource from its name.
pub fn infer_route(resource: &str) -> (r: Result<(&'static str, &'static str), String>)
    ensures
        match route_for(resource@) {
            Some(route) => r matches Ok((p, c)) && p@ == route.0 && c@ == route.1,
            None => r matches Err(m) && m@ == route_error(resource@),
        },
{
    let chars = chars_of(resource);
    let systemd = chars_of("systemd:unit:");
    if crate::text::seq_starts_with(chars.as_slice(), systemd.as_slice()) {
        return Ok(("systemd", "systemd.unit.observe"));
    }
    if str_eq(resource, "networkmanager:manager") {
        return Ok(("networkmanager", "networkmanager.manager.observe"));
    }
    let device = chars_of("networkmanager:device:");
    if crate::text::seq_starts_with(chars.as_slice(), device.as_slice()) {
        return Ok(("networkmanager", "networkmanager.device.observe"));
    }
    let mut m = owned("cannot infer an observation provider for ");
    let q = crate::text::debug_quote(resource);
    append_str(&mut m, q.as_str());
    append_str(&mut m, "; use `linuractl observe <provider> <capability> <resource>`");
    Err(m)
}

/// The usage line a command reports.
pub open spec fn usage_message(usage: Seq<char>) -> Seq<char> {
    "usage: linuractl "@ + usage
}

/// Checks that a command got exactly `expected` words, the command first;
/// otherwise reports its usage.
pub fn require_arity(args: &[String], expected: usize, usage: &str) -> (r: Result<(), String>)
    ensures
        r is Ok <==> args@.len() == expected,
        args@.len() != expected ==> (r matches Err(m) && m@ == usage_message(usage@)),
{
    if args.len() == expected {
        Ok(())
    } else {
        let mut m = owned("usage: linuractl ");
        append_str(&mut m, usage);
        Err(m)
    }
}

/// The usage of the observe command.
pub open spec fn observe_usage() -> Seq<char> {
    "usage: linuractl observe <resource> OR linuractl observe <provider> <capability> <resource>"@
}

/// The provider, capability and resource an observe command names: the
/// route inferred from a lone resource, or all three given in full.
pub fn parse_observe_args(args: &[String]) -> (r: Result<(String, String, String), String>)
    ensures
        args@.len() == 2 ==> match route_for(args@[1]@) {
            Some(route) => r matches Ok((p, c, res)) && p@ == route.0 && c@ == route.1 && res@ == args@[1]@,
            None => r matches Err(m) && m@ == route_error(args@[1]@),
        },
        args@.len() == 4 ==> (r matches Ok((p, c, res)) && p@ == args@[1]@ && c@ == args@[2]@ && res@
            == args@[3]@),
        args@.len() != 2 && args@.len() != 4 ==> (r matches Err(m) && m@ == observe_usage()),
{
    if args.len() == 2 {
        let resource = args[1].as_str();
        match infer_route(resource) {
            Ok((provider, capability)) => Ok((owned(provider), owned(capability), owned(resource))),
            Err(m) => Err(m),
        }
    } else if args.len() == 4 {
        Ok((owned(args[1].as_str()), owned(args[2].as_str()), owned(args[3].as_str())))
    } else {
        Err(owned(
            "usage: linuractl observe <resource> OR linuractl observe <provider> <capability> <resource>",
        ))
    }
}

/// A text written line-safe.
pub fn escaped(value: &str) -> (r: String)
    ensures
        r@ == line_escaped(value@),
{
    let chars = chars_of(value);
    let mut out = String::new();
    let mut i: usize = 0;
    while i < chars.len()
        invariant
            i <= chars@.len(),
            chars@ == value@,
            out@ == line_escaped(chars@.take(i as int)),
        decreases chars@.len() - i,
    {
        let c = chars[i];
        assert(chars@.take(i + 1).drop_last() =~= chars@.take(i as int));
        if c == '\\' {
            append_str(&mut out, "\\\\");
        } else if c == '\n' {
            append_str(&mut out, "\\n");
        } else if c == '\r' {
            append_str(&mut out, "\\r");
        } else if c == '\t' {
            append_str(&mut out, "\\t");
        } else {
            push_char(&mut out, c);
            assert(out@ =~= line_escaped(chars@.take(i as int)) + seq![c]);
        }
        i = i + 1;
    }
    assert(chars@.take(i as int) =~= chars@);
    out
}

/// Appends the JSON escaping of a text.
fn append_json_body(out: &mut String, value: &str)
    ensures
        final(out)@ == old(out)@ + json_body(value@),
{
    let chars = chars_of(value);
    let ghost start = out@;
    let mut i: usize = 0;
    while i < chars.len()
        invariant
            i <= chars@.len(),
            chars@ == value@,
            out@ == start + json_body(chars@.take(i as int)),
        decreases chars@.len() - i,
    {
        let c = chars[i];
        assert(chars@.take(i + 1).drop_last() =~= chars@.take(i as int));
        let ghost before = out@;
        if c == '"' {
            append_str(out, "\\\"");
        } else if c == '\\' {
            append_str(out, "\\\\");
        } else if c == '\u{08}' {
            append_str(out, "\\b");
        } else if c == '\u{0c}' {
            append_str(out, "\\f");
        } else if c == '\n' {
            append_str(out, "\\n");
        } else if c == '\r' {
            append_str(out, "\\r");
        } else if c == '\t' {
            append_str(out, "\\t");
        } else if (c as u32) <= 0x1f {
            append_str(out, "\\u");
            append_hex_width(out, c as u32 as u64, 4);
        } else {
            push_char(out, c);
            assert(out@ =~= before + seq![c]);
        }
        assert(out@ =~= start + json_body(chars@.take(i + 1)));
        i = i + 1;
    }
    assert(chars@.take(i as int) =~= chars@);
}

/// A text as a JSON string literal.
pub fn json_string(value: &str) -> (r: String)
    ensures
        r@ == json_quoted(value@),
{
    let mut out = owned("\"");
    append_json_body(&mut out, value);
    append_str(&mut out, "\"");
    out
}

/// Appends one command as a JSON object.
fn append_command_json(out: &mut String, c: CommandInfo)
    ensures
        final(out)@ == old(out)@ + command_json(command_view(c)),
{
    append_str(out, "{\"name\":");
    let name = json_string(c.name);
    append_str(out, name.as_str());
    append_str(out, ",\"summary\":");
    let summary = json_string(c.summary);
    append_str(out, summary.as_str());
    append_str(out, ",\"offline\":");
    append_str(out, if c.offline { "true" } else { "false" });
    append_str(out, "}");
    assert(final(out)@ =~= old(out)@ + command_json(command_view(c)));
}

/// The command catalog as a JSON array of objects with name, summary and
/// whether each works offline.
pub fn commands_json() -> (r: String)
    ensures
        r@ == "["@ + commands_json_body(command_catalog()) + "]"@,
{
    let cs = commands();
    let ghost cat = command_catalog();
    let mut out = owned("[");
    let mut i: usize = 0;
    while i < cs.len()
        invariant
            i <= cs@.len(),
            cat == command_catalog(),
            cs@.len() == cat.len(),
            forall|k: int| 0 <= k < cs@.len() ==> command_view(#[trigger] cs@[k]) == cat[k],
            out@ == "["@ + commands_json_body(cat.take(i as int)),
        decreases cs@.len() - i,
    {
        let c = cs[i];
        let ghost before = out@;
        if i > 0 {
            append_str(&mut out, ",");
        }
        append_command_json(&mut out, c);
        proof {
            assert(command_view(cs@[i as int]) == cat[i as int]);
            assert(cat.take(i + 1).drop_last() =~= cat.take(i as int));
            assert(cat.take(i + 1).last() == cat[i as int]);
            if i == 0 {
                assert(cat.take(i as int) =~= Seq::<(Seq<char>, Seq<char>, bool)>::empty());
            }
            assert(out@ =~= "["@ + commands_json_body(cat.take(i + 1)));
        }
        i = i + 1;
    }
    append_str(&mut out, "]");
    assert(cat.take(i as int) =~= cat);
    out
}

} // verus!
