//! The IPv4 checker: pings an address, finds the local address or the public
//! one. Here stand its validation of addresses, its help text and every
//! decision it takes between the commands that it runs.

use vstd::prelude::*;
use crate::text::{
    byte_text, chars_of, contains, decimal, digits_value, has_substring, in_range, is_byte_text,
    is_digit, join_with, last_line_containing, last_line_with, lemma_decimal_reads_back,
    lemma_join_split, lemma_split_by_nonempty, line_ranges, lines, pieces, ranges_within,
    separates, slice_text, split_by, split_ranges, trim, trim_text, word_ranges, words, Sep,
};
use crate::tool::{
    code_text, command_of, err_only, err_result, exit_code_text, is_help, ok_result,
    opening_spec, opt_view, param, reply_err, reply_ok, text_is, verdict_view, CommandOutcome,
    CommandSpec, CommandView, Opening, OpeningView, OutcomeView, ParamSchema, ParamView,
    ReplyView, SchemaView, ToolResult,
};

verus! {

/// `s` is a dotted-quad IPv4 address: four `.`-separated parts, each the
/// unsigned decimal text of a byte.
pub open spec fn valid_ipv4(s: Seq<char>) -> bool {
    let parts = split_by(s, Sep::Char('.'));
    &&& parts.len() == 4
    &&& forall|i: int| 0 <= i < 4 ==> #[trigger] parts[i].len() > 0 && byte_text(parts[i])
}

/// Validate an IPv4 address string (e.g. "192.168.1.1").
pub fn is_valid_ipv4(ip: &str) -> (r: bool)
    ensures
        r == valid_ipv4(ip@),
{
    let v = chars_of(ip);
    let parts = split_ranges(&v, Sep::Char('.'));
    let ghost ps = pieces(v@, parts@);
    if parts.len() != 4 {
        return false;
    }
    let mut k: usize = 0;
    while k < 4
        invariant
            parts@.len() == 4,
            ps == pieces(v@, parts@),
            ps == split_by(ip@, Sep::Char('.')),
            ranges_within(parts@, v@.len()),
            k <= 4,
            forall|i: int| 0 <= i < k ==> #[trigger] ps[i].len() > 0 && byte_text(ps[i]),
        decreases 4 - k,
    {
        let (a, b) = parts[k];
        assert(parts@[k as int].0 <= parts@[k as int].1 <= v@.len());
        assert(ps[k as int] == v@.subrange(a as int, b as int));
        if a == b || !is_byte_text(&v, a, b) {
            return false;
        }
        k = k + 1;
    }
    true
}

/// The four bytes written in decimal and joined by dots.
pub open spec fn dotted_quad(a: u8, b: u8, c: u8, d: u8) -> Seq<char> {
    decimal(a as nat) + seq!['.'] + decimal(b as nat) + seq!['.'] + decimal(c as nat) + seq!['.']
        + decimal(d as nat)
}

proof fn lemma_split_plain_suffix(p: Seq<char>, t: Seq<char>, sep: Sep)
    requires
        forall|i: int| 0 <= i < t.len() ==> !separates(sep, #[trigger] t[i]),
    ensures
        split_by(p + t, sep) == split_by(p, sep).update(
            split_by(p, sep).len() - 1,
            split_by(p, sep).last() + t,
        ),
    decreases t.len(),
{
    lemma_split_by_nonempty(p, sep);
    if t.len() == 0 {
        assert(p + t =~= p);
        assert(split_by(p, sep).last() + t =~= split_by(p, sep).last());
        assert(split_by(p, sep).update(split_by(p, sep).len() - 1, split_by(p, sep).last())
            =~= split_by(p, sep));
    } else {
        let t0 = t.drop_last();
        assert forall|i: int| 0 <= i < t0.len() implies !separates(sep, #[trigger] t0[i]) by {
            assert(t0[i] == t[i]);
        }
        lemma_split_plain_suffix(p, t0, sep);
        assert((p + t).drop_last() =~= p + t0);
        assert((p + t).last() == t.last());
        assert(!separates(sep, t[t.len() - 1]));
        assert((split_by(p, sep).last() + t0).push(t.last()) =~= split_by(p, sep).last() + t);
        assert(split_by(p + t, sep) =~= split_by(p, sep).update(
            split_by(p, sep).len() - 1,
            split_by(p, sep).last() + t,
        ));
    }
}

proof fn lemma_split_after_separator(p: Seq<char>, c: char, t: Seq<char>)
    requires
        forall|i: int| 0 <= i < t.len() ==> #[trigger] t[i] != c,
    ensures
        split_by(p + seq![c] + t, Sep::Char(c)) == split_by(p, Sep::Char(c)).push(t),
{
    let sep = Sep::Char(c);
    let q = p + seq![c];
    assert(q.drop_last() =~= p);
    assert(split_by(q, sep) == split_by(p, sep).push(Seq::<char>::empty()));
    lemma_split_plain_suffix(q, t, sep);
    assert(Seq::<char>::empty() + t =~= t);
    assert(split_by(q, sep).update(split_by(q, sep).len() - 1, split_by(q, sep).last() + t)
        =~= split_by(p, sep).push(t));
}

proof fn lemma_decimal_has_no_dot(n: nat)
    ensures
        forall|i: int| 0 <= i < decimal(n).len() ==> #[trigger] decimal(n)[i] != '.',
{
    lemma_decimal_reads_back(n);
    assert forall|i: int| 0 <= i < decimal(n).len() implies #[trigger] decimal(n)[i] != '.' by {
        assert(is_digit(decimal(n)[i]));
    }
}

proof fn lemma_decimal_is_byte_text(n: u8)
    ensures
        decimal(n as nat).len() > 0,
        byte_text(decimal(n as nat)),
{
    lemma_decimal_reads_back(n as nat);
}

/// Every four bytes written in decimal and joined by dots form an address that
/// `is_valid_ipv4` accepts.
pub proof fn lemma_dotted_quad_is_valid(a: u8, b: u8, c: u8, d: u8)
    ensures
        valid_ipv4(dotted_quad(a, b, c, d)),
{
    let sep = Sep::Char('.');
    let da = decimal(a as nat);
    let db = decimal(b as nat);
    let dc = decimal(c as nat);
    let dd = decimal(d as nat);
    lemma_decimal_has_no_dot(a as nat);
    lemma_decimal_has_no_dot(b as nat);
    lemma_decimal_has_no_dot(c as nat);
    lemma_decimal_has_no_dot(d as nat);
    lemma_decimal_is_byte_text(a);
    lemma_decimal_is_byte_text(b);
    lemma_decimal_is_byte_text(c);
    lemma_decimal_is_byte_text(d);
    let e = Seq::<char>::empty();
    assert(split_by(e, sep) == seq![e]);
    lemma_split_plain_suffix(e, da, sep);
    assert(e + da =~= da);
    assert(split_by(da, sep) =~= seq![da]);
    lemma_split_after_separator(da, '.', db);
    let s2 = da + seq!['.'] + db;
    lemma_split_after_separator(s2, '.', dc);
    let s3 = s2 + seq!['.'] + dc;
    lemma_split_after_separator(s3, '.', dd);
    let s4 = s3 + seq!['.'] + dd;
    assert(s4 == dotted_quad(a, b, c, d));
    let parts = split_by(s4, sep);
    assert(parts =~= seq![da, db, dc, dd]);
    assert(forall|i: int| 0 <= i < 4 ==> #[trigger] parts[i].len() > 0 && byte_text(parts[i]));
}

/// A part of an IPv4 address: one or more ASCII digits worth at most 255.
pub open spec fn address_part(p: Seq<char>) -> bool {
    &&& p.len() > 0
    &&& forall|i: int| 0 <= i < p.len() ==> in_range(#[trigger] p[i], '0', '9')
    &&& digits_value(p) <= 255
}

proof fn lemma_address_part_is_byte_text(p: Seq<char>)
    ensures
        address_part(p) <==> byte_text(p),
        address_part(p) ==> forall|i: int| 0 <= i < p.len() ==> #[trigger] p[i] != '.',
{
    assert(('0' as u32) == 48 && ('9' as u32) == 57 && ('.' as u32) == 46);
    if address_part(p) {
        assert forall|i: int| 0 <= i < p.len() implies #[trigger] is_digit(p[i]) by {
            assert(in_range(p[i], '0', '9'));
        }
        assert forall|i: int| 0 <= i < p.len() implies #[trigger] p[i] != '.' by {
            assert(in_range(p[i], '0', '9'));
        }
    }
    if byte_text(p) {
        assert forall|i: int| 0 <= i < p.len() implies in_range(#[trigger] p[i], '0', '9') by {
            assert(is_digit(p[i]));
        }
    }
}

/// A text is accepted as an IPv4 address exactly when it is four address
/// parts (each one or more ASCII digits worth at most 255) joined by dots.
pub proof fn lemma_valid_ipv4_meaning(s: Seq<char>)
    ensures
        valid_ipv4(s) <==> exists|a: Seq<char>, b: Seq<char>, c: Seq<char>, d: Seq<char>|
            {
                &&& s == a + seq!['.'] + b + seq!['.'] + c + seq!['.'] + d
                &&& #[trigger] address_part(a)
                &&& #[trigger] address_part(b)
                &&& #[trigger] address_part(c)
                &&& #[trigger] address_part(d)
            },
{
    let sep = Sep::Char('.');
    if valid_ipv4(s) {
        let ps = split_by(s, sep);
        lemma_join_split(s, '.');
        assert(ps.drop_last().drop_last().drop_last() =~= seq![ps[0]]);
        assert(ps.drop_last().drop_last() =~= seq![ps[0], ps[1]]);
        assert(ps.drop_last() =~= seq![ps[0], ps[1], ps[2]]);
        assert(join_with(seq![ps[0]], '.') == ps[0]);
        assert(join_with(seq![ps[0], ps[1]], '.') == ps[0] + seq!['.'] + ps[1]);
        assert(join_with(seq![ps[0], ps[1], ps[2]], '.') == ps[0] + seq!['.'] + ps[1] + seq!['.']
            + ps[2]);
        assert(s == ps[0] + seq!['.'] + ps[1] + seq!['.'] + ps[2] + seq!['.'] + ps[3]);
        lemma_address_part_is_byte_text(ps[0]);
        lemma_address_part_is_byte_text(ps[1]);
        lemma_address_part_is_byte_text(ps[2]);
        lemma_address_part_is_byte_text(ps[3]);
        assert(byte_text(ps[0]) && byte_text(ps[1]) && byte_text(ps[2]) && byte_text(ps[3]));
    }
    if exists|a: Seq<char>, b: Seq<char>, c: Seq<char>, d: Seq<char>|
        {
            &&& s == a + seq!['.'] + b + seq!['.'] + c + seq!['.'] + d
            &&& #[trigger] address_part(a)
            &&& #[trigger] address_part(b)
            &&& #[trigger] address_part(c)
            &&& #[trigger] address_part(d)
        } {
        let (a, b, c, d) = choose|a: Seq<char>, b: Seq<char>, c: Seq<char>, d: Seq<char>|
            {
                &&& s == a + seq!['.'] + b + seq!['.'] + c + seq!['.'] + d
                &&& #[trigger] address_part(a)
                &&& #[trigger] address_part(b)
                &&& #[trigger] address_part(c)
                &&& #[trigger] address_part(d)
            };
        lemma_address_part_is_byte_text(a);
        lemma_address_part_is_byte_text(b);
        lemma_address_part_is_byte_text(c);
        lemma_address_part_is_byte_text(d);
        let e = Seq::<char>::empty();
        assert(split_by(e, sep) == seq![e]);
        lemma_split_plain_suffix(e, a, sep);
        assert(e + a =~= a);
        assert(split_by(a, sep) =~= seq![a]);
        lemma_split_after_separator(a, '.', b);
        lemma_split_after_separator(a + seq!['.'] + b, '.', c);
        lemma_split_after_separator(a + seq!['.'] + b + seq!['.'] + c, '.', d);
        let parts = split_by(s, sep);
        assert(parts =~= seq![a, b, c, d]);
        assert(forall|i: int| 0 <= i < 4 ==> #[trigger] parts[i].len() > 0 && byte_text(parts[i]));
    }
}

/// The usage guide of the tool.
pub open spec fn help_text() -> Seq<char> {
    "\u{1f527} **Check IPv4 Tool** \u{2014} Network diagnostics\n\n"@ + "\u{26a1}\u{fe0f} **Modes:**\n"@
        + "  \u{2022} `ping` \u{2014} Test if an IP address is reachable (4 packets, 5s timeout)\n"@
        + "  \u{2022} `local` \u{2014} Get the local machine's IPv4 address\n"@
        + "  \u{2022} `public` \u{2014} Get your public IPv4 address from external service\n\n"@
        + "\u{1f4dd} **Usage Examples:**\n"@ + "  ```json\n"@
        + "{\"mode\": \"ping\", \"target_ip\": \"8.8.8.8\"}"@ + "\n  ```\n"@ + "  ```json\n"@
        + "{\"mode\": \"local\"}"@ + "\n  ```\n"@ + "  ```json\n"@ + "{\"mode\": \"public\"}"@
        + "\n  ```\n"@ + "\n\u{1f511} **Parameters:**\n"@
        + "  \u{2022} `mode` \u{2014} Required: ping, local, public\n"@
        + "  \u{2022} `target_ip` \u{2014} Target IPv4 address (required for ping mode)\n"@
}

/// Generate a help message with usage examples for the check_ipv4 tool.
pub fn generate_help() -> (r: String)
    ensures
        r@ == help_text(),
{
    let mut help = String::from_str("\u{1f527} **Check IPv4 Tool** \u{2014} Network diagnostics\n\n");
    help.append("\u{26a1}\u{fe0f} **Modes:**\n");
    help.append("  \u{2022} `ping` \u{2014} Test if an IP address is reachable (4 packets, 5s timeout)\n");
    help.append("  \u{2022} `local` \u{2014} Get the local machine's IPv4 address\n");
    help.append("  \u{2022} `public` \u{2014} Get your public IPv4 address from external service\n\n");
    help.append("\u{1f4dd} **Usage Examples:**\n");
    help.append("  ```json\n");
    help.append("{\"mode\": \"ping\", \"target_ip\": \"8.8.8.8\"}");
    help.append("\n  ```\n");
    help.append("  ```json\n");
    help.append("{\"mode\": \"local\"}");
    help.append("\n  ```\n");
    help.append("  ```json\n");
    help.append("{\"mode\": \"public\"}");
    help.append("\n  ```\n");
    help.append("\n\u{1f511} **Parameters:**\n");
    help.append("  \u{2022} `mode` \u{2014} Required: ping, local, public\n");
    help.append("  \u{2022} `target_ip` \u{2014} Target IPv4 address (required for ping mode)\n");
    help
}

/// The tool's name, which the security policy is asked about.
pub open spec fn tool_name() -> Seq<char> {
    "check_ipv4"@
}

/// The tool's name.
pub fn name() -> (r: String)
    ensures
        r@ == tool_name(),
{
    String::from_str("check_ipv4")
}

pub open spec fn description_text() -> Seq<char> {
    "Check IPv4 network information. Modes: ping (test reachability), local (get local IP), public (get public IP). Use 'help' mode for full usage guide. Example: /check_ipv4 {\"mode\": \"ping\", \"target_ip\": \"8.8.8.8\"}"@
}

/// What the tool does, in one paragraph.
pub fn description() -> (r: String)
    ensures
        r@ == description_text(),
{
    String::from_str(
        "Check IPv4 network information. Modes: ping (test reachability), local (get local IP), public (get public IP). Use 'help' mode for full usage guide. Example: /check_ipv4 {\"mode\": \"ping\", \"target_ip\": \"8.8.8.8\"}",
    )
}

/// The parameters: `mode` (one of help, ping, local, public; required) and
/// `target_ip`.
pub open spec fn schema_spec() -> SchemaView {
    SchemaView {
        properties: seq![
            ParamView {
                name: "mode"@,
                description: "Check mode: 'help' for usage guide, 'ping' to test reachability, 'local' for local IP, 'public' for public IP"@,
                choices: Some(seq!["help"@, "ping"@, "local"@, "public"@]),
            },
            ParamView {
                name: "target_ip"@,
                description: "Target IPv4 address to ping (required when mode is 'ping', e.g. '192.168.1.1')"@,
                choices: None,
            },
        ],
        required: seq!["mode"@],
    }
}

pub fn parameters_schema() -> (r: ParamSchema)
    ensures
        r@ == schema_spec(),
{
    let modes: &[&str] = &["help", "ping", "local", "public"];
    let mut properties = Vec::new();
    properties.push(
        param(
            "mode",
            "Check mode: 'help' for usage guide, 'ping' to test reachability, 'local' for local IP, 'public' for public IP",
            Some(modes),
        ),
    );
    properties.push(
        param(
            "target_ip",
            "Target IPv4 address to ping (required when mode is 'ping', e.g. '192.168.1.1')",
            None,
        ),
    );
    let required: &[&str] = &["mode"];
    let r = ParamSchema { properties, required: crate::tool::texts(required) };
    assert(modes@.map_values(|a: &str| a@) =~= seq!["help"@, "ping"@, "local"@, "public"@]);
    assert(r@.properties[0] == schema_spec().properties[0]);
    assert(r@.properties[1] == schema_spec().properties[1]);
    assert(r@.properties =~= schema_spec().properties);
    assert(r@.required =~= schema_spec().required);
    r
}

/// The arguments of a call: each field holds the argument's text, or `None`
/// where the argument is absent or not a string.
pub struct Ipv4Args {
    pub mode: Option<String>,
    pub target_ip: Option<String>,
}

/// The operating system the tool runs on; it decides how the local address is
/// looked up.
#[derive(Clone, Copy, PartialEq, Eq, Debug)]
pub enum Platform {
    Linux,
    MacOs,
    Other,
}

/// The commands that can reveal the local address, in the order tried.
#[derive(Clone, Copy, PartialEq, Eq, Debug)]
pub enum LocalProbe {
    /// `hostname -I` (Linux).
    HostnameAll,
    /// `ip -4 addr show` (Linux).
    IpAddrShow,
    /// `ipconfig getifaddr en0` (macOS).
    IpconfigEn0,
    /// `ifconfig en0` (macOS).
    IfconfigEn0,
}

/// Where a call stands.
pub enum Ipv4Stage {
    /// The call fails with this message.
    Fail(String),
    /// The call answers.
    Reply(ToolResult),
    /// Run the ping command on the target; `ping_finished` then answers.
    Ping { target: String, command: CommandSpec },
    /// Run this probe's command; `local_next` then decides.
    Local { probe: LocalProbe, command: CommandSpec },
    /// Ask the public-address service with this index; `public_next` then decides.
    Public { service: usize, command: CommandSpec },
}

pub enum Ipv4StageView {
    Fail(Seq<char>),
    Reply(ReplyView),
    Ping { target: Seq<char>, command: CommandView },
    Local { probe: LocalProbe, command: CommandView },
    Public { service: nat, command: CommandView },
}

impl View for Ipv4Stage {
    type V = Ipv4StageView;

    open spec fn view(&self) -> Ipv4StageView {
        match self {
            Ipv4Stage::Fail(m) => Ipv4StageView::Fail(m@),
            Ipv4Stage::Reply(r) => Ipv4StageView::Reply(r@),
            Ipv4Stage::Ping { target, command } => Ipv4StageView::Ping {
                target: target@,
                command: command@,
            },
            Ipv4Stage::Local { probe, command } => Ipv4StageView::Local {
                probe: *probe,
                command: command@,
            },
            Ipv4Stage::Public { service, command } => Ipv4StageView::Public {
                service: *service as nat,
                command: command@,
            },
        }
    }
}

pub open spec fn missing_mode_msg() -> Seq<char> {
    "Missing 'mode' parameter. Use 'help' for usage guide."@
}

pub open spec fn invalid_mode_msg(m: Seq<char>) -> Seq<char> {
    "Invalid mode '"@ + m + "'. Use 'help' for full usage guide."@
}

pub open spec fn missing_target_msg() -> Seq<char> {
    "Missing 'target_ip' parameter (required for ping mode)"@
}

pub open spec fn invalid_target_msg(t: Seq<char>) -> Seq<char> {
    "Invalid IPv4 address format: '"@ + t + "'. Expected format: x.x.x.x (e.g. 192.168.1.1)"@
}

pub open spec fn ping_command(t: Seq<char>) -> CommandView {
    CommandView { program: "ping"@, args: seq!["-c"@, "4"@, "-W"@, "5"@, t] }
}

/// The first step: a call without a mode fails, `help` is answered with the
/// usage guide, every other mode first needs the security policy's consent.
pub fn begin(args: &Ipv4Args) -> (o: Opening)
    ensures
        o@ matches OpeningView::Reply(r) ==> r.wf(),
        o@ == opening_spec(opt_view(args.mode), missing_mode_msg(), help_text(), tool_name()),
{
    match &args.mode {
        None => Opening::Fail(String::from_str("Missing 'mode' parameter. Use 'help' for usage guide.")),
        Some(m) => if is_help(m) {
            Opening::Reply(ok_result(generate_help()))
        } else {
            Opening::CheckPolicy(name())
        },
    }
}

/// The stage reached once the policy has answered.
pub open spec fn dispatch_spec(
    mode: Option<Seq<char>>,
    target: Option<Seq<char>>,
    verdict: Result<(), Seq<char>>,
    platform: Platform,
) -> Ipv4StageView {
    match mode {
        None => Ipv4StageView::Fail(missing_mode_msg()),
        Some(m) => if m == "help"@ {
            Ipv4StageView::Reply(reply_ok(help_text()))
        } else {
            match verdict {
                Err(e) => Ipv4StageView::Reply(reply_err(Seq::empty(), e)),
                Ok(()) => if m == "ping"@ {
                    ping_stage(target)
                } else if m == "local"@ {
                    local_start_spec(platform)
                } else if m == "public"@ {
                    public_stage_spec(0)
                } else {
                    Ipv4StageView::Reply(reply_err(Seq::empty(), invalid_mode_msg(m)))
                },
            }
        },
    }
}

pub open spec fn ping_stage(target: Option<Seq<char>>) -> Ipv4StageView {
    match target {
        None => Ipv4StageView::Fail(missing_target_msg()),
        Some(t) => if valid_ipv4(t) {
            Ipv4StageView::Ping { target: t, command: ping_command(t) }
        } else {
            Ipv4StageView::Reply(reply_err(Seq::empty(), invalid_target_msg(t)))
        },
    }
}

/// Where the first step settles a call, the later stage settles it the same
/// way whatever the policy answered; the policy's answer only counts where the
/// first step asked for it.
pub proof fn lemma_dispatch_agrees_with_begin(
    mode: Option<Seq<char>>,
    target: Option<Seq<char>>,
    verdict: Result<(), Seq<char>>,
    platform: Platform,
)
    ensures
        opening_spec(mode, missing_mode_msg(), help_text(), tool_name()) matches OpeningView::Fail(
            m,
        ) ==> dispatch_spec(mode, target, verdict, platform) == Ipv4StageView::Fail(m),
        opening_spec(mode, missing_mode_msg(), help_text(), tool_name()) matches OpeningView::Reply(
            r,
        ) ==> dispatch_spec(mode, target, verdict, platform) == Ipv4StageView::Reply(r),
{
}

/// Once the policy consented, `ping` with a target that is a valid address
/// runs `ping -c 4 -W 5` on exactly that target, `local` starts the local
/// lookup and `public` asks the first public-address service; without the
/// policy's consent nothing runs.
pub proof fn lemma_modes_after_consent(
    mode: Option<Seq<char>>,
    target: Option<Seq<char>>,
    verdict: Result<(), Seq<char>>,
    platform: Platform,
)
    ensures
        ({
            let st = dispatch_spec(mode, target, verdict, platform);
            &&& (st matches Ipv4StageView::Ping { target: t, command } ==> {
                &&& verdict is Ok
                &&& mode == Some("ping"@)
                &&& target == Some(t)
                &&& command == CommandView {
                    program: "ping"@,
                    args: seq!["-c"@, "4"@, "-W"@, "5"@, t],
                }
            })
            &&& (verdict is Ok && mode == Some("ping"@) && (target matches Some(t) && valid_ipv4(t))
                ==> st is Ping)
            &&& (verdict is Ok && mode == Some("local"@) ==> st == local_start_spec(platform))
            &&& (verdict is Ok && mode == Some("public"@) ==> st == public_stage_spec(0))
            &&& (verdict is Err ==> !(st is Ping || st is Local || st is Public))
        }),
{
    reveal_strlit("help");
    reveal_strlit("ping");
    reveal_strlit("local");
    reveal_strlit("public");
    assert("ping"@[0] != "help"@[0] && "local"@[0] != "help"@[0] && "local"@[0] != "ping"@[0]);
    assert("ping"@ != "help"@ && "local"@ != "help"@ && "local"@ != "ping"@);
    assert("public"@ != "help"@ && "public"@ != "ping"@ && "public"@ != "local"@) by {
        assert("public"@.len() != "help"@.len());
        assert("public"@.len() != "ping"@.len());
        assert("public"@[0] != "local"@[0]);
    }
}

/// The stage after the policy answered `verdict`: a refusal is answered with
/// its message; `ping` checks the target, `local` and `public` start their
/// lookups; any other mode is answered as invalid.
pub fn dispatch(args: &Ipv4Args, verdict: Result<(), String>, platform: Platform) -> (st: Ipv4Stage)
    ensures
        st@ == dispatch_spec(
            opt_view(args.mode),
            opt_view(args.target_ip),
            verdict_view(verdict),
            platform,
        ),
        st@ matches Ipv4StageView::Ping { target, .. } ==> verdict is Ok && valid_ipv4(target),
        st@ is Local || st@ is Public ==> verdict is Ok,
        st@ matches Ipv4StageView::Reply(r) ==> r.wf(),
{
    let m = match &args.mode {
        None => {
            return Ipv4Stage::Fail(String::from_str("Missing 'mode' parameter. Use 'help' for usage guide."));
        },
        Some(m) => m,
    };
    if is_help(m) {
        return Ipv4Stage::Reply(ok_result(generate_help()));
    }
    if let Err(e) = verdict {
        return Ipv4Stage::Reply(err_only(e));
    }
    if text_is(m, "ping") {
        match &args.target_ip {
            None => Ipv4Stage::Fail(String::from_str("Missing 'target_ip' parameter (required for ping mode)")),
            Some(t) => if is_valid_ipv4(t.as_str()) {
                let command = command_of("ping", &["-c", "4", "-W", "5", t.as_str()]);
                assert(command@.args =~= ping_command(t@).args);
                Ipv4Stage::Ping { target: t.clone(), command }
            } else {
                let mut e = String::from_str("Invalid IPv4 address format: '");
                e.append(t.as_str());
                e.append("'. Expected format: x.x.x.x (e.g. 192.168.1.1)");
                Ipv4Stage::Reply(err_only(e))
            },
        }
    } else if text_is(m, "local") {
        local_start(platform)
    } else if text_is(m, "public") {
        public_stage(0)
    } else {
        let mut e = String::from_str("Invalid mode '");
        e.append(m.as_str());
        e.append("'. Use 'help' for full usage guide.");
        Ipv4Stage::Reply(err_only(e))
    }
}

/// What the ping run reports.
pub open spec fn ping_report(t: Seq<char>, o: OutcomeView) -> ReplyView {
    match o {
        OutcomeView::SpawnFailed(e) => reply_err(
            Seq::empty(),
            "Failed to execute ping command: "@ + e,
        ),
        OutcomeView::Exited { success, code, stdout, stderr } => if success {
            reply_ok(
                "Ping to "@ + t + " successful.\n"@ + trim(stdout) + "\n"@ + last_line_with(
                    lines(stdout),
                    "packet loss"@,
                ),
            )
        } else {
            reply_err(
                trim(stdout),
                "Ping to "@ + t + " failed (exit code "@ + code_text(code) + "). "@ + trim(stderr),
            )
        },
    }
}

/// The answer once the ping command on `target` has ended: on success the
/// trimmed output and the last line that reports packet loss; on failure the
/// exit code and the trimmed error output.
pub fn ping_finished(target: &String, outcome: &CommandOutcome) -> (r: ToolResult)
    ensures
        r@ == ping_report(target@, outcome@),
        r@.wf(),
{
    match outcome {
        CommandOutcome::SpawnFailed(e) => {
            let mut msg = String::from_str("Failed to execute ping command: ");
            msg.append(e.as_str());
            err_only(msg)
        },
        CommandOutcome::Exited { success, code, stdout, stderr } => {
            if *success {
                let mut out = String::from_str("Ping to ");
                out.append(target.as_str());
                out.append(" successful.\n");
                let t = trim_text(stdout.as_str());
                out.append(t.as_str());
                out.append("\n");
                let summary = last_line_containing(stdout.as_str(), "packet loss");
                out.append(summary.as_str());
                ok_result(out)
            } else {
                let mut msg = String::from_str("Ping to ");
                msg.append(target.as_str());
                msg.append(" failed (exit code ");
                let c = exit_code_text(*code);
                msg.append(c.as_str());
                msg.append("). ");
                let e = trim_text(stderr.as_str());
                msg.append(e.as_str());
                err_result(trim_text(stdout.as_str()), msg)
            }
        },
    }
}

/// The valid address among `ws` that comes first.
pub open spec fn first_valid(ws: Seq<Seq<char>>) -> Option<Seq<char>>
    decreases ws.len(),
{
    if ws.len() == 0 {
        None
    } else if valid_ipv4(ws[0]) {
        Some(ws[0])
    } else {
        first_valid(ws.drop_first())
    }
}

/// The second word of `line`, or empty text.
pub open spec fn second_word(line: Seq<char>) -> Seq<char> {
    if words(line).len() > 1 {
        words(line)[1]
    } else {
        Seq::empty()
    }
}

/// The address that a line of interface listing offers: its second word,
/// cut at the first `/` where `before_slash`.
pub open spec fn inet_candidate(line: Seq<char>, before_slash: bool) -> Seq<char> {
    if before_slash {
        split_by(second_word(line), Sep::Char('/'))[0]
    } else {
        second_word(line)
    }
}

/// The first valid address offered by a line of `ls` that contains `inet `.
pub open spec fn first_inet(ls: Seq<Seq<char>>, before_slash: bool) -> Option<Seq<char>>
    decreases ls.len(),
{
    if ls.len() == 0 {
        None
    } else if contains(ls[0], "inet "@) && valid_ipv4(inet_candidate(ls[0], before_slash)) {
        Some(inet_candidate(ls[0], before_slash))
    } else {
        first_inet(ls.drop_first(), before_slash)
    }
}

/// The address picked from a list of words is the first valid one: it is a
/// word of the list, no earlier word is valid, and none is picked only when
/// no word is valid.
pub proof fn lemma_first_valid_is_first(ws: Seq<Seq<char>>)
    ensures
        first_valid(ws) matches Some(w) ==> exists|k: int|
            0 <= k < ws.len() && ws[k] == w && valid_ipv4(w) && forall|j: int|
                0 <= j < k ==> !valid_ipv4(#[trigger] ws[j]),
        first_valid(ws) is None <==> forall|j: int| 0 <= j < ws.len() ==> !valid_ipv4(#[trigger] ws[j]),
    decreases ws.len(),
{
    if ws.len() > 0 {
        let rest = ws.drop_first();
        lemma_first_valid_is_first(rest);
        if valid_ipv4(ws[0]) {
            assert(ws[0] == ws[0] && forall|j: int| 0 <= j < 0 ==> !valid_ipv4(#[trigger] ws[j]));
        } else {
            if let Some(w) = first_valid(rest) {
                let k = choose|k: int|
                    0 <= k < rest.len() && rest[k] == w && valid_ipv4(w) && forall|j: int|
                        0 <= j < k ==> !valid_ipv4(#[trigger] rest[j]);
                assert(ws[k + 1] == w);
                assert forall|j: int| 0 <= j < k + 1 implies !valid_ipv4(#[trigger] ws[j]) by {
                    if j > 0 {
                        assert(ws[j] == rest[j - 1]);
                    }
                }
            } else {
                assert forall|j: int| 0 <= j < ws.len() implies !valid_ipv4(#[trigger] ws[j]) by {
                    if j > 0 {
                        assert(ws[j] == rest[j - 1]);
                    }
                }
            }
            if forall|j: int| 0 <= j < ws.len() ==> !valid_ipv4(#[trigger] ws[j]) {
                assert forall|j: int| 0 <= j < rest.len() implies !valid_ipv4(#[trigger] rest[j]) by {
                    assert(rest[j] == ws[j + 1]);
                }
            }
        }
    }
}

/// The address offered by the first line that contains `inet ` and offers a
/// valid address is the one picked; none is picked only when no such line
/// exists.
pub proof fn lemma_first_inet_is_first(ls: Seq<Seq<char>>, before_slash: bool)
    ensures
        first_inet(ls, before_slash) matches Some(w) ==> exists|k: int|
            0 <= k < ls.len() && contains(ls[k], "inet "@) && w == inet_candidate(ls[k], before_slash)
                && valid_ipv4(w) && forall|j: int|
                0 <= j < k ==> !(contains(#[trigger] ls[j], "inet "@) && valid_ipv4(
                    inet_candidate(ls[j], before_slash),
                )),
        first_inet(ls, before_slash) is None <==> forall|j: int|
            0 <= j < ls.len() ==> !(contains(#[trigger] ls[j], "inet "@) && valid_ipv4(
                inet_candidate(ls[j], before_slash),
            )),
    decreases ls.len(),
{
    if ls.len() > 0 {
        let rest = ls.drop_first();
        lemma_first_inet_is_first(rest, before_slash);
        if contains(ls[0], "inet "@) && valid_ipv4(inet_candidate(ls[0], before_slash)) {
            assert(forall|j: int|
                0 <= j < 0 ==> !(contains(#[trigger] ls[j], "inet "@) && valid_ipv4(
                    inet_candidate(ls[j], before_slash),
                )));
        } else {
            if let Some(w) = first_inet(rest, before_slash) {
                let k = choose|k: int|
                    0 <= k < rest.len() && contains(rest[k], "inet "@) && w == inet_candidate(
                        rest[k],
                        before_slash,
                    ) && valid_ipv4(w) && forall|j: int|
                        0 <= j < k ==> !(contains(#[trigger] rest[j], "inet "@) && valid_ipv4(
                            inet_candidate(rest[j], before_slash),
                        ));
                assert(ls[k + 1] == rest[k]);
                assert forall|j: int| 0 <= j < k + 1 implies !(contains(#[trigger] ls[j], "inet "@)
                    && valid_ipv4(inet_candidate(ls[j], before_slash))) by {
                    if j > 0 {
                        assert(ls[j] == rest[j - 1]);
                    }
                }
            } else {
                assert forall|j: int| 0 <= j < ls.len() implies !(contains(#[trigger] ls[j], "inet "@)
                    && valid_ipv4(inet_candidate(ls[j], before_slash))) by {
                    if j > 0 {
                        assert(ls[j] == rest[j - 1]);
                    }
                }
            }
            if forall|j: int|
                0 <= j < ls.len() ==> !(contains(#[trigger] ls[j], "inet "@) && valid_ipv4(
                    inet_candidate(ls[j], before_slash),
                )) {
                assert forall|j: int| 0 <= j < rest.len() implies !(contains(
                    #[trigger] rest[j],
                    "inet "@,
                ) && valid_ipv4(inet_candidate(rest[j], before_slash))) by {
                    assert(rest[j] == ls[j + 1]);
                }
            }
        }
    }
}

/// The address that a probe's run reveals, if any.
pub open spec fn local_pick(probe: LocalProbe, o: OutcomeView) -> Option<Seq<char>> {
    match o {
        OutcomeView::SpawnFailed(_) => None,
        OutcomeView::Exited { success, stdout, .. } => match probe {
            LocalProbe::HostnameAll => if success {
                first_valid(words(trim(stdout)))
            } else {
                None
            },
            LocalProbe::IpAddrShow => first_inet(lines(stdout), true),
            LocalProbe::IpconfigEn0 => if success && trim(stdout).len() > 0 && valid_ipv4(
                trim(stdout),
            ) {
                Some(trim(stdout))
            } else {
                None
            },
            LocalProbe::IfconfigEn0 => first_inet(lines(stdout), false),
        },
    }
}

pub open spec fn local_command_spec(probe: LocalProbe) -> CommandView {
    match probe {
        LocalProbe::HostnameAll => CommandView { program: "hostname"@, args: seq!["-I"@] },
        LocalProbe::IpAddrShow => CommandView {
            program: "ip"@,
            args: seq!["-4"@, "addr"@, "show"@],
        },
        LocalProbe::IpconfigEn0 => CommandView {
            program: "ipconfig"@,
            args: seq!["getifaddr"@, "en0"@],
        },
        LocalProbe::IfconfigEn0 => CommandView { program: "ifconfig"@, args: seq!["en0"@] },
    }
}

/// The probe tried after `probe` found nothing.
pub open spec fn local_fallback(probe: LocalProbe) -> Option<LocalProbe> {
    match probe {
        LocalProbe::HostnameAll => Some(LocalProbe::IpAddrShow),
        LocalProbe::IpconfigEn0 => Some(LocalProbe::IfconfigEn0),
        _ => None,
    }
}

pub open spec fn local_found_text(probe: LocalProbe) -> Seq<char> {
    match probe {
        LocalProbe::HostnameAll | LocalProbe::IpAddrShow => "Local IPv4 address: "@,
        _ => "Local IPv4 address (en0): "@,
    }
}

pub open spec fn probe_stage(p: Option<LocalProbe>) -> Ipv4StageView {
    match p {
        Some(p) => Ipv4StageView::Local { probe: p, command: local_command_spec(p) },
        None => Ipv4StageView::Reply(
            reply_err(Seq::empty(), "Could not determine local IPv4 address"@),
        ),
    }
}

pub open spec fn first_probe(platform: Platform) -> Option<LocalProbe> {
    match platform {
        Platform::Linux => Some(LocalProbe::HostnameAll),
        Platform::MacOs => Some(LocalProbe::IpconfigEn0),
        Platform::Other => None,
    }
}

pub open spec fn local_start_spec(platform: Platform) -> Ipv4StageView {
    probe_stage(first_probe(platform))
}

pub open spec fn local_next_spec(probe: LocalProbe, o: OutcomeView) -> Ipv4StageView {
    match local_pick(probe, o) {
        Some(ip) => Ipv4StageView::Reply(reply_ok(local_found_text(probe) + ip)),
        None => probe_stage(local_fallback(probe)),
    }
}

fn local_command(probe: LocalProbe) -> (c: CommandSpec)
    ensures
        c@ == local_command_spec(probe),
{
    let c = match probe {
        LocalProbe::HostnameAll => command_of("hostname", &["-I"]),
        LocalProbe::IpAddrShow => command_of("ip", &["-4", "addr", "show"]),
        LocalProbe::IpconfigEn0 => command_of("ipconfig", &["getifaddr", "en0"]),
        LocalProbe::IfconfigEn0 => command_of("ifconfig", &["en0"]),
    };
    assert(c@.args =~= local_command_spec(probe).args);
    c
}

fn stage_for_probe(p: Option<LocalProbe>) -> (st: Ipv4Stage)
    ensures
        st@ == probe_stage(p),
{
    match p {
        Some(p) => Ipv4Stage::Local { probe: p, command: local_command(p) },
        None => Ipv4Stage::Reply(err_only(String::from_str("Could not determine local IPv4 address"))),
    }
}

/// The first probe for the local address on `platform`; on a platform with no
/// probe, the answer that it could not be found.
pub fn local_start(platform: Platform) -> (st: Ipv4Stage)
    ensures
        st@ == local_start_spec(platform),
{
    let p = match platform {
        Platform::Linux => Some(LocalProbe::HostnameAll),
        Platform::MacOs => Some(LocalProbe::IpconfigEn0),
        Platform::Other => None,
    };
    stage_for_probe(p)
}

/// The first word of `s` that is a valid address.
fn first_valid_word(s: &str) -> (r: Option<String>)
    ensures
        opt_view(r) == first_valid(words(s@)),
{
    let v = chars_of(s);
    let wr = word_ranges(&v);
    let ghost ws = pieces(v@, wr@);
    let mut k: usize = 0;
    assert(ws.skip(0) =~= ws);
    while k < wr.len()
        invariant
            v@ == s@,
            ws == pieces(v@, wr@),
            ws == words(s@),
            ranges_within(wr@, v@.len()),
            k <= wr@.len(),
            first_valid(ws) == first_valid(ws.skip(k as int)),
        decreases wr@.len() - k,
    {
        let (a, b) = wr[k];
        assert(wr@[k as int].0 <= wr@[k as int].1 <= v@.len());
        let w = slice_text(s, a, b);
        assert(ws.skip(k as int)[0] == w@);
        assert(ws.skip(k as int).drop_first() =~= ws.skip(k + 1));
        if is_valid_ipv4(w.as_str()) {
            return Some(w);
        }
        k = k + 1;
    }
    assert(ws.skip(k as int) =~= Seq::<Seq<char>>::empty());
    None
}

/// The second word of `line`, or empty text.
fn second_word_of(line: &str) -> (r: String)
    ensures
        r@ == second_word(line@),
{
    let v = chars_of(line);
    let wr = word_ranges(&v);
    if wr.len() > 1 {
        let (a, b) = wr[1];
        assert(wr@[1].0 <= wr@[1].1 <= v@.len());
        assert(pieces(v@, wr@)[1] == v@.subrange(a as int, b as int));
        slice_text(line, a, b)
    } else {
        String::new()
    }
}

fn inet_candidate_of(line: &str, before_slash: bool) -> (r: String)
    ensures
        r@ == inet_candidate(line@, before_slash),
{
    let w = second_word_of(line);
    if before_slash {
        let wv = chars_of(w.as_str());
        let sr = split_ranges(&wv, Sep::Char('/'));
        proof {
            lemma_split_by_nonempty(wv@, Sep::Char('/'));
        }
        let (a, b) = sr[0];
        assert(sr@[0].0 <= sr@[0].1 <= wv@.len());
        assert(pieces(wv@, sr@)[0] == wv@.subrange(a as int, b as int));
        slice_text(w.as_str(), a, b)
    } else {
        w
    }
}

/// A successful `hostname -I` is answered with the first word of its trimmed
/// output that is a valid address; when it failed, could not run, or offered
/// no valid word, the lookup goes on with `ip -4 addr show`.
pub proof fn lemma_hostname_answers_first_address(o: OutcomeView)
    ensures
        ({
            let st = local_next_spec(LocalProbe::HostnameAll, o);
            match o {
                OutcomeView::Exited { success: true, stdout, .. } if exists|k: int|
                    0 <= k < words(trim(stdout)).len() && valid_ipv4(
                        #[trigger] words(trim(stdout))[k],
                    ) => exists|k: int|
                    #![trigger words(trim(stdout))[k]]
                    {
                        let ws = words(trim(stdout));
                        &&& 0 <= k < ws.len()
                        &&& valid_ipv4(ws[k])
                        &&& forall|j: int| 0 <= j < k ==> !valid_ipv4(#[trigger] ws[j])
                        &&& st == Ipv4StageView::Reply(reply_ok("Local IPv4 address: "@ + ws[k]))
                    },
                _ => st == Ipv4StageView::Local {
                    probe: LocalProbe::IpAddrShow,
                    command: CommandView { program: "ip"@, args: seq!["-4"@, "addr"@, "show"@] },
                },
            }
        }),
{
    if let OutcomeView::Exited { success: true, stdout, .. } = o {
        lemma_first_valid_is_first(words(trim(stdout)));
    }
}

/// `ip -4 addr show` and `ifconfig en0` are answered with the address of the
/// first line that contains `inet ` and offers a valid address (the second
/// word, cut at `/` for `ip`), whatever their exit status; with no such line,
/// `ip` ends the lookup as failed and `ifconfig` does too.
pub proof fn lemma_listing_answers_first_inet_line(probe: LocalProbe, o: OutcomeView)
    requires
        probe == LocalProbe::IpAddrShow || probe == LocalProbe::IfconfigEn0,
    ensures
        ({
            let before_slash = probe == LocalProbe::IpAddrShow;
            let prefix = if before_slash {
                "Local IPv4 address: "@
            } else {
                "Local IPv4 address (en0): "@
            };
            let st = local_next_spec(probe, o);
            match o {
                OutcomeView::Exited { stdout, .. } if exists|k: int|
                    0 <= k < lines(stdout).len() && contains(#[trigger] lines(stdout)[k], "inet "@)
                        && valid_ipv4(inet_candidate(lines(stdout)[k], before_slash)) => exists|
                    k: int,
                |
                    #![trigger lines(stdout)[k]]
                    {
                        let ls = lines(stdout);
                        &&& 0 <= k < ls.len()
                        &&& contains(ls[k], "inet "@)
                        &&& valid_ipv4(inet_candidate(ls[k], before_slash))
                        &&& forall|j: int|
                            0 <= j < k ==> !(contains(#[trigger] ls[j], "inet "@) && valid_ipv4(
                                inet_candidate(ls[j], before_slash),
                            ))
                        &&& st == Ipv4StageView::Reply(
                            reply_ok(prefix + inet_candidate(ls[k], before_slash)),
                        )
                    },
                _ => st == Ipv4StageView::Reply(
                    reply_err(Seq::empty(), "Could not determine local IPv4 address"@),
                ),
            }
        }),
{
    if let OutcomeView::Exited { stdout, .. } = o {
        lemma_first_inet_is_first(lines(stdout), probe == LocalProbe::IpAddrShow);
    }
}

/// The lookup starts with `hostname -I` on Linux and `ipconfig getifaddr en0`
/// on macOS; a failed `ipconfig` goes on with `ifconfig en0`; elsewhere the
/// address cannot be found.
pub proof fn lemma_local_lookup_order(o: OutcomeView)
    ensures
        local_start_spec(Platform::Linux) == (Ipv4StageView::Local {
            probe: LocalProbe::HostnameAll,
            command: CommandView { program: "hostname"@, args: seq!["-I"@] },
        }),
        local_start_spec(Platform::MacOs) == (Ipv4StageView::Local {
            probe: LocalProbe::IpconfigEn0,
            command: CommandView { program: "ipconfig"@, args: seq!["getifaddr"@, "en0"@] },
        }),
        local_start_spec(Platform::Other) == Ipv4StageView::Reply(
            reply_err(Seq::empty(), "Could not determine local IPv4 address"@),
        ),
        !(o matches OutcomeView::Exited { success: true, .. }) ==> local_next_spec(
            LocalProbe::IpconfigEn0,
            o,
        ) == (Ipv4StageView::Local {
            probe: LocalProbe::IfconfigEn0,
            command: CommandView { program: "ifconfig"@, args: seq!["en0"@] },
        }),
        o matches OutcomeView::Exited { success: true, stdout, .. } ==> local_next_spec(
            LocalProbe::IpconfigEn0,
            o,
        ) == (if trim(stdout).len() > 0 && valid_ipv4(trim(stdout)) {
            Ipv4StageView::Reply(reply_ok("Local IPv4 address (en0): "@ + trim(stdout)))
        } else {
            Ipv4StageView::Local {
                probe: LocalProbe::IfconfigEn0,
                command: CommandView { program: "ifconfig"@, args: seq!["en0"@] },
            }
        }),
{
}

/// The first valid address offered by a line of `s` that contains `inet `.
fn first_inet_addr(s: &str, before_slash: bool) -> (r: Option<String>)
    ensures
        opt_view(r) == first_inet(lines(s@), before_slash),
{
    let v = chars_of(s);
    let pat = chars_of("inet ");
    let lr = line_ranges(&v);
    let ghost ls = pieces(v@, lr@);
    let mut k: usize = 0;
    assert(ls.skip(0) =~= ls);
    while k < lr.len()
        invariant
            v@ == s@,
            pat@ == "inet "@,
            ls == pieces(v@, lr@),
            ls == lines(s@),
            ranges_within(lr@, v@.len()),
            k <= lr@.len(),
            first_inet(ls, before_slash) == first_inet(ls.skip(k as int), before_slash),
        decreases lr@.len() - k,
    {
        let (a, b) = lr[k];
        assert(lr@[k as int].0 <= lr@[k as int].1 <= v@.len());
        let line = slice_text(s, a, b);
        let lv = chars_of(line.as_str());
        assert(ls.skip(k as int)[0] == line@);
        assert(ls.skip(k as int).drop_first() =~= ls.skip(k + 1));
        if has_substring(&lv, &pat) {
            let cand = inet_candidate_of(line.as_str(), before_slash);
            if is_valid_ipv4(cand.as_str()) {
                return Some(cand);
            }
        }
        k = k + 1;
    }
    assert(ls.skip(k as int) =~= Seq::<Seq<char>>::empty());
    None
}

fn local_pick_exec(probe: LocalProbe, outcome: &CommandOutcome) -> (r: Option<String>)
    ensures
        opt_view(r) == local_pick(probe, outcome@),
{
    match outcome {
        CommandOutcome::SpawnFailed(_) => None,
        CommandOutcome::Exited { success, stdout, .. } => match probe {
            LocalProbe::HostnameAll => if *success {
                let t = trim_text(stdout.as_str());
                first_valid_word(t.as_str())
            } else {
                None
            },
            LocalProbe::IpAddrShow => first_inet_addr(stdout.as_str(), true),
            LocalProbe::IpconfigEn0 => {
                let t = trim_text(stdout.as_str());
                if *success && t.as_str().unicode_len() > 0 && is_valid_ipv4(t.as_str()) {
                    Some(t)
                } else {
                    None
                }
            },
            LocalProbe::IfconfigEn0 => first_inet_addr(stdout.as_str(), false),
        },
    }
}

/// The stage after `probe`'s command ended: the address it revealed is
/// answered; otherwise the next probe runs, or, after the last, the answer
/// is that no local address could be found.
pub fn local_next(probe: LocalProbe, outcome: &CommandOutcome) -> (st: Ipv4Stage)
    ensures
        st@ == local_next_spec(probe, outcome@),
        st@ matches Ipv4StageView::Reply(r) ==> r.wf(),
{
    match local_pick_exec(probe, outcome) {
        Some(ip) => {
            let mut out = match probe {
                LocalProbe::HostnameAll | LocalProbe::IpAddrShow => String::from_str(
                    "Local IPv4 address: ",
                ),
                _ => String::from_str("Local IPv4 address (en0): "),
            };
            out.append(ip.as_str());
            Ipv4Stage::Reply(ok_result(out))
        },
        None => {
            let next = match probe {
                LocalProbe::HostnameAll => Some(LocalProbe::IpAddrShow),
                LocalProbe::IpconfigEn0 => Some(LocalProbe::IfconfigEn0),
                _ => None,
            };
            stage_for_probe(next)
        },
    }
}

/// The services asked for the public address, in order.
pub open spec fn public_services() -> Seq<Seq<char>> {
    seq!["https://api.ipify.org"@, "https://ifconfig.me"@, "https://icanhazip.com"@]
}

pub open spec fn curl_command(url: Seq<char>) -> CommandView {
    CommandView { program: "curl"@, args: seq!["-s"@, "-m"@, "10"@, "--fail"@, url] }
}

/// Asking service `i`, or, once every service was asked, the answer that all
/// of them failed.
pub open spec fn public_stage_spec(i: nat) -> Ipv4StageView {
    if i < 3 {
        Ipv4StageView::Public { service: i, command: curl_command(public_services()[i as int]) }
    } else {
        Ipv4StageView::Reply(
            reply_err(Seq::empty(), "Could not determine public IPv4 address. All services failed."@),
        )
    }
}

/// The address a service's reply gives, if any.
pub open spec fn public_pick(o: OutcomeView) -> Option<Seq<char>> {
    match o {
        OutcomeView::Exited { success, stdout, .. } => if success && trim(stdout).len() > 0
            && valid_ipv4(trim(stdout)) {
            Some(trim(stdout))
        } else {
            None
        },
        OutcomeView::SpawnFailed(_) => None,
    }
}

pub open spec fn public_next_spec(i: nat, o: OutcomeView) -> Ipv4StageView {
    if i >= 3 {
        public_stage_spec(i)
    } else {
        match public_pick(o) {
            Some(ip) => Ipv4StageView::Reply(
                reply_ok(
                    "Public IPv4 address: "@ + ip + " (via "@ + public_services()[i as int] + ")"@,
                ),
            ),
            None => public_stage_spec(i + 1),
        }
    }
}

/// The public address is asked of `https://api.ipify.org`,
/// `https://ifconfig.me` and `https://icanhazip.com`, in that order, each with
/// `curl -s -m 10 --fail`: the lookup starts with the first, a service whose
/// run yields no valid address hands over to the next, and only after the
/// third is the lookup answered as failed. A valid address in a successful
/// reply is answered together with the service that gave it.
pub proof fn lemma_public_services_in_order(i: nat, o: OutcomeView)
    ensures
        i < 3 ==> public_stage_spec(i) == (Ipv4StageView::Public {
            service: i,
            command: CommandView {
                program: "curl"@,
                args: seq![
                    "-s"@,
                    "-m"@,
                    "10"@,
                    "--fail"@,
                    seq!["https://api.ipify.org"@, "https://ifconfig.me"@, "https://icanhazip.com"@][i as int],
                ],
            },
        }),
        i < 3 && public_pick(o) is None ==> public_next_spec(i, o) == public_stage_spec(i + 1),
        public_stage_spec(3) == Ipv4StageView::Reply(
            reply_err(Seq::empty(), "Could not determine public IPv4 address. All services failed."@),
        ),
        i < 3 && (o matches OutcomeView::Exited { success: true, stdout, .. } && trim(stdout).len()
            > 0 && valid_ipv4(trim(stdout))) ==> public_next_spec(i, o) == Ipv4StageView::Reply(
            reply_ok(
                "Public IPv4 address: "@ + trim(o->stdout) + " (via "@ + seq![
                    "https://api.ipify.org"@,
                    "https://ifconfig.me"@,
                    "https://icanhazip.com"@,
                ][i as int] + ")"@,
            ),
        ),
        public_pick(o) is Some <==> (o matches OutcomeView::Exited { success: true, stdout, .. }
            && trim(stdout).len() > 0 && valid_ipv4(trim(stdout))),
{
}

fn service_url(i: usize) -> (r: &'static str)
    requires
        i < 3,
    ensures
        r@ == public_services()[i as int],
{
    if i == 0 {
        "https://api.ipify.org"
    } else if i == 1 {
        "https://ifconfig.me"
    } else {
        "https://icanhazip.com"
    }
}

fn public_stage(i: usize) -> (st: Ipv4Stage)
    ensures
        st@ == public_stage_spec(i as nat),
{
    if i < 3 {
        let url = service_url(i);
        let command = command_of("curl", &["-s", "-m", "10", "--fail", url]);
        assert(command@.args =~= curl_command(public_services()[i as int]).args);
        Ipv4Stage::Public { service: i, command }
    } else {
        Ipv4Stage::Reply(
            err_only(String::from_str("Could not determine public IPv4 address. All services failed.")),
        )
    }
}

/// The stage after service `service` replied: a valid address in its trimmed
/// output is answered together with the service; otherwise the next service
/// is asked, or, after the last, the answer is that all failed.
pub fn public_next(service: usize, outcome: &CommandOutcome) -> (st: Ipv4Stage)
    ensures
        st@ == public_next_spec(service as nat, outcome@),
        st@ matches Ipv4StageView::Reply(r) ==> r.wf(),
{
    if service >= 3 {
        return public_stage(service);
    }
    let found = match outcome {
        CommandOutcome::Exited { success, stdout, .. } => {
            let t = trim_text(stdout.as_str());
            if *success && t.as_str().unicode_len() > 0 && is_valid_ipv4(t.as_str()) {
                Some(t)
            } else {
                None
            }
        },
        CommandOutcome::SpawnFailed(_) => None,
    };
    match found {
        Some(ip) => {
            let mut out = String::from_str("Public IPv4 address: ");
            out.append(ip.as_str());
            out.append(" (via ");
            out.append(service_url(service));
            out.append(")");
            Ipv4Stage::Reply(ok_result(out))
        },
        None => public_stage(service + 1),
    }
}

} // verus!
