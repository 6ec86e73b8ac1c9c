//! The Wake-on-LAN tool: sends a magic packet to a device by its MAC address.
//! Here stand its address validation, its help text and every decision it
//! takes around the run of `wakeonlan`.

use vstd::prelude::*;
use crate::text::{chars_of, in_range, trim, trim_text};
use crate::tool::{
    code_text, err_only, err_result, exit_code_text, is_help, ok_result, opening_spec, opt_view,
    param, reply_err, reply_ok, texts, verdict_view, CommandOutcome, CommandSpec, CommandView,
    Opening, OpeningView, OutcomeView, ParamSchema, ParamView, ReplyView, SchemaView,
    ToolResult,
};

verus! {

/// A separator that MAC addresses may hold between their digit pairs.
pub open spec fn is_mac_separator(c: char) -> bool {
    c == ':' || c == '-'
}

/// `s` without its `:` and `-` characters.
pub open spec fn strip_separators(s: Seq<char>) -> Seq<char>
    decreases s.len(),
{
    if s.len() == 0 {
        s
    } else if is_mac_separator(s.last()) {
        strip_separators(s.drop_last())
    } else {
        strip_separators(s.drop_last()).push(s.last())
    }
}

/// An ASCII hexadecimal digit, of either case.
pub open spec fn is_hex(c: char) -> bool {
    let u = c as u32;
    (48 <= u && u <= 57) || (65 <= u && u <= 70) || (97 <= u && u <= 102)
}

/// `s` is a MAC address: without its `:` and `-` characters it is exactly
/// twelve hexadecimal digits.
pub open spec fn valid_mac(s: Seq<char>) -> bool {
    let c = strip_separators(s);
    &&& c.len() == 12
    &&& forall|i: int| 0 <= i < c.len() ==> #[trigger] is_hex(c[i])
}

/// Validate a MAC address string (accepts common formats: AA:BB:CC:DD:EE:FF,
/// AA-BB-CC-DD-EE-FF, and the twelve digits without separators).
pub fn is_valid_mac_address(mac: &str) -> (r: bool)
    ensures
        r == valid_mac(mac@),
{
    let v = chars_of(mac);
    let mut count: usize = 0;
    let mut all_hex = true;
    let mut i: usize = 0;
    assert(v@.take(0) =~= Seq::<char>::empty());
    while i < v.len()
        invariant
            v@ == mac@,
            i <= v@.len(),
            count == strip_separators(v@.take(i as int)).len(),
            count <= i,
            all_hex <==> forall|k: int|
                0 <= k < count ==> #[trigger] is_hex(strip_separators(v@.take(i as int))[k]),
        decreases v@.len() - i,
    {
        let c = v[i];
        let ghost prev = strip_separators(v@.take(i as int));
        assert(v@.take(i + 1).drop_last() =~= v@.take(i as int));
        assert(v@.take(i + 1).last() == c);
        if c != ':' && c != '-' {
            let u = c as u32;
            let hex = (48 <= u && u <= 57) || (65 <= u && u <= 70) || (97 <= u && u <= 102);
            assert(strip_separators(v@.take(i + 1)) == prev.push(c));
            assert(forall|k: int| 0 <= k < count ==> prev.push(c)[k] == prev[k]);
            assert(hex == is_hex(c));
            assert(prev.push(c)[count as int] == c);
            if !hex {
                all_hex = false;
                assert(!is_hex(prev.push(c)[count as int]));
            }
            count = count + 1;
        } else {
            assert(strip_separators(v@.take(i + 1)) == prev);
        }
        i = i + 1;
    }
    assert(v@.take(v@.len() as int) =~= v@);
    count == 12 && all_hex
}

/// The characters of `s` other than `:` and `-`, in order.
pub open spec fn without_separators(s: Seq<char>) -> Seq<char> {
    s.filter(|c: char| c != ':' && c != '-')
}

proof fn lemma_strip_is_filter(s: Seq<char>)
    ensures
        strip_separators(s) == without_separators(s),
    decreases s.len(),
{
    reveal(Seq::filter);
    if s.len() > 0 {
        lemma_strip_is_filter(s.drop_last());
    }
}

/// A text is a valid MAC address exactly when its characters other than `:`
/// and `-` are twelve, each a digit or a letter from `A` to `F`, of either
/// case.
pub proof fn lemma_valid_mac_meaning(s: Seq<char>)
    ensures
        valid_mac(s) <==> ({
            let c = without_separators(s);
            &&& c.len() == 12
            &&& forall|i: int|
                0 <= i < 12 ==> in_range(#[trigger] c[i], '0', '9') || in_range(c[i], 'A', 'F')
                    || in_range(c[i], 'a', 'f')
        }),
{
    lemma_strip_is_filter(s);
    let c = strip_separators(s);
    assert(('0' as u32) == 48 && ('9' as u32) == 57 && ('A' as u32) == 65 && ('F' as u32) == 70);
    assert(('a' as u32) == 97 && ('f' as u32) == 102);
    assert forall|i: int| 0 <= i < c.len() implies #[trigger] is_hex(c[i]) == (in_range(
        c[i],
        '0',
        '9',
    ) || in_range(c[i], 'A', 'F') || in_range(c[i], 'a', 'f')) by {}
    let w = without_separators(s);
    assert(w == c);
    if valid_mac(s) {
        assert forall|i: int| 0 <= i < 12 implies in_range(#[trigger] w[i], '0', '9') || in_range(
            w[i],
            'A',
            'F',
        ) || in_range(w[i], 'a', 'f') by {
            assert(is_hex(c[i]));
        }
    }
    if w.len() == 12 && forall|i: int|
        0 <= i < 12 ==> in_range(#[trigger] w[i], '0', '9') || in_range(w[i], 'A', 'F') || in_range(
            w[i],
            'a',
            'f',
        ) {
        assert forall|i: int| 0 <= i < c.len() implies #[trigger] is_hex(c[i]) by {
            assert(in_range(w[i], '0', '9') || in_range(w[i], 'A', 'F') || in_range(w[i], 'a', 'f'));
        }
    }
}

/// The hexadecimal digit (upper case) for `d < 16`.
pub open spec fn hex_digit(d: nat) -> char {
    if d < 10 {
        (48 + d) as char
    } else {
        (55 + d) as char
    }
}

/// The two hexadecimal digits of a byte.
pub open spec fn hex_pair(b: u8) -> Seq<char> {
    seq![hex_digit((b / 16) as nat), hex_digit((b % 16) as nat)]
}

/// The bytes `bs` as digit pairs joined by `sep`.
pub open spec fn mac_text(bs: Seq<u8>, sep: Seq<char>) -> Seq<char>
    decreases bs.len(),
{
    if bs.len() == 0 {
        Seq::empty()
    } else if bs.len() == 1 {
        hex_pair(bs[0])
    } else {
        mac_text(bs.drop_last(), sep) + sep + hex_pair(bs.last())
    }
}

proof fn lemma_strip_concat(a: Seq<char>, b: Seq<char>)
    ensures
        strip_separators(a + b) == strip_separators(a) + strip_separators(b),
    decreases b.len(),
{
    if b.len() == 0 {
        assert(a + b =~= a);
        assert(strip_separators(a) + strip_separators(b) =~= strip_separators(a));
    } else {
        lemma_strip_concat(a, b.drop_last());
        assert((a + b).drop_last() =~= a + b.drop_last());
        assert((a + b).last() == b.last());
        if !is_mac_separator(b.last()) {
            assert(strip_separators(a) + strip_separators(b) =~= (strip_separators(a)
                + strip_separators(b.drop_last())).push(b.last()));
        }
    }
}

proof fn lemma_hex_pair(b: u8)
    ensures
        strip_separators(hex_pair(b)) == hex_pair(b),
        is_hex(hex_pair(b)[0]),
        is_hex(hex_pair(b)[1]),
{
    let p = hex_pair(b);
    let (hi, lo) = ((b / 16) as nat, (b % 16) as nat);
    assert((hex_digit(hi) as u32) == (if hi < 10 { 48 + hi } else { 55 + hi }));
    assert((hex_digit(lo) as u32) == (if lo < 10 { 48 + lo } else { 55 + lo }));
    assert(is_hex(p[0]) && is_hex(p[1]));
    assert(!is_mac_separator(p[0]) && !is_mac_separator(p[1]));
    assert(p.drop_last().drop_last() =~= Seq::<char>::empty());
    assert(p.drop_last() =~= seq![p[0]]);
    assert(seq![p[0]].drop_last() =~= Seq::<char>::empty());
    assert(seq![p[0]].last() == p[0]);
    assert(strip_separators(Seq::<char>::empty()) == Seq::<char>::empty());
    assert(Seq::<char>::empty().push(p[0]) =~= seq![p[0]]);
    assert(strip_separators(seq![p[0]]) =~= seq![p[0]]);
    assert(seq![p[0]].push(p[1]) =~= p);
}

/// Six bytes written as upper-case digit pairs and joined by `:`, by `-` or by
/// nothing form an address that `is_valid_mac_address` accepts.
pub proof fn lemma_mac_text_is_valid(bs: Seq<u8>, sep: Seq<char>)
    requires
        bs.len() == 6,
        sep.len() == 0 || sep == seq![':'] || sep == seq!['-'],
    ensures
        valid_mac(mac_text(bs, sep)),
{
    lemma_stripped_mac_text(bs, sep);
}

proof fn lemma_stripped_mac_text(bs: Seq<u8>, sep: Seq<char>)
    requires
        sep.len() == 0 || sep == seq![':'] || sep == seq!['-'],
    ensures
        strip_separators(mac_text(bs, sep)).len() == 2 * bs.len(),
        forall|i: int|
            0 <= i < 2 * bs.len() ==> #[trigger] is_hex(strip_separators(mac_text(bs, sep))[i]),
    decreases bs.len(),
{
    if bs.len() == 1 {
        lemma_hex_pair(bs[0]);
    } else if bs.len() > 1 {
        lemma_stripped_mac_text(bs.drop_last(), sep);
        lemma_hex_pair(bs.last());
        let prev = mac_text(bs.drop_last(), sep);
        lemma_strip_concat(prev + sep, hex_pair(bs.last()));
        lemma_strip_concat(prev, sep);
        assert(strip_separators(sep) =~= Seq::<char>::empty()) by {
            if sep.len() > 0 {
                assert(sep.drop_last() =~= Seq::<char>::empty());
                assert(sep.last() == sep[0]);
                assert(is_mac_separator(sep[0]));
                assert(strip_separators(Seq::<char>::empty()) == Seq::<char>::empty());
            }
        }
        let sp = strip_separators(prev);
        let whole = strip_separators(mac_text(bs, sep));
        assert(whole =~= sp + Seq::<char>::empty() + hex_pair(bs.last()));
        assert forall|i: int| 0 <= i < 2 * bs.len() implies #[trigger] is_hex(whole[i]) by {
            if i < sp.len() {
                assert(whole[i] == sp[i]);
            } else {
                assert(whole[i] == hex_pair(bs.last())[i - sp.len()]);
            }
        }
    }
}

/// The usage guide of the tool.
pub open spec fn help_text() -> Seq<char> {
    "\u{1f527} **Wake-on-LAN Tool** \u{2014} Power on devices via network\n\n"@
        + "\u{26a1}\u{fe0f} **What it does:**\n"@
        + "  Sends a Wake-on-LAN magic packet to wake up a sleeping/off device on your local network.\n\n"@
        + "\u{1f4dd} **Usage Example:**\n"@ + "  ```json\n"@
        + "{\"mac_address\": \"AA:BB:CC:DD:EE:FF\"}"@ + "\n  ```\n"@
        + "\n\u{1f511} **Parameters:**\n"@
        + "  \u{2022} `mac_address` \u{2014} MAC address of the target device\n"@
        + "    Formats: AA:BB:CC:DD:EE:FF | AA-BB-CC-DD-EE-FF | AABCCDDEEFF\n\n"@
        + "\u{26a0}\u{fe0f} **Requirements:**\n"@
        + "  \u{2022} Target device must have WoL enabled in BIOS/UEFI\n"@
        + "  \u{2022} Target device must be on the same local network\n"@
        + "  \u{2022} `wakeonlan` CLI tool must be installed on this machine\n"@
}

/// Generate a help message with usage examples for the wake_on_lan tool.
pub fn generate_help() -> (r: String)
    ensures
        r@ == help_text(),
{
    let mut help = String::from_str(
        "\u{1f527} **Wake-on-LAN Tool** \u{2014} Power on devices via network\n\n",
    );
    help.append("\u{26a1}\u{fe0f} **What it does:**\n");
    help.append(
        "  Sends a Wake-on-LAN magic packet to wake up a sleeping/off device on your local network.\n\n",
    );
    help.append("\u{1f4dd} **Usage Example:**\n");
    help.append("  ```json\n");
    help.append("{\"mac_address\": \"AA:BB:CC:DD:EE:FF\"}");
    help.append("\n  ```\n");
    help.append("\n\u{1f511} **Parameters:**\n");
    help.append("  \u{2022} `mac_address` \u{2014} MAC address of the target device\n");
    help.append("    Formats: AA:BB:CC:DD:EE:FF | AA-BB-CC-DD-EE-FF | AABCCDDEEFF\n\n");
    help.append("\u{26a0}\u{fe0f} **Requirements:**\n");
    help.append("  \u{2022} Target device must have WoL enabled in BIOS/UEFI\n");
    help.append("  \u{2022} Target device must be on the same local network\n");
    help.append("  \u{2022} `wakeonlan` CLI tool must be installed on this machine\n");
    help
}

/// The tool's name, which the security policy is asked about.
pub open spec fn tool_name() -> Seq<char> {
    "wake_on_lan"@
}

/// The tool's name.
pub fn name() -> (r: String)
    ensures
        r@ == tool_name(),
{
    String::from_str("wake_on_lan")
}

pub open spec fn description_text() -> Seq<char> {
    "Send a Wake-on-LAN magic packet to power on a device by its MAC address. Use 'help' for usage guide. Example: /wake_on_lan {\"mac_address\": \"AA:BB:CC:DD:EE:FF\"}"@
}

/// What the tool does, in one paragraph.
pub fn description() -> (r: String)
    ensures
        r@ == description_text(),
{
    String::from_str(
        "Send a Wake-on-LAN magic packet to power on a device by its MAC address. Use 'help' for usage guide. Example: /wake_on_lan {\"mac_address\": \"AA:BB:CC:DD:EE:FF\"}",
    )
}

/// The one parameter: `mac_address`, required.
pub open spec fn schema_spec() -> SchemaView {
    SchemaView {
        properties: seq![
            ParamView {
                name: "mac_address"@,
                description: "MAC address of the device to wake (e.g. 'AA:BB:CC:DD:EE:FF'). Use 'help' instead for usage guide."@,
                choices: None,
            },
        ],
        required: seq!["mac_address"@],
    }
}

pub fn parameters_schema() -> (r: ParamSchema)
    ensures
        r@ == schema_spec(),
{
    let mut properties = Vec::new();
    properties.push(
        param(
            "mac_address",
            "MAC address of the device to wake (e.g. 'AA:BB:CC:DD:EE:FF'). Use 'help' instead for usage guide.",
            None,
        ),
    );
    let required: &[&str] = &["mac_address"];
    let r = ParamSchema { properties, required: texts(required) };
    assert(r@.properties =~= schema_spec().properties);
    assert(r@.required =~= schema_spec().required);
    r
}

/// The argument of a call: the address text, or `None` where it is absent or
/// not a string.
pub struct WolArgs {
    pub mac_address: Option<String>,
}

/// Where a call stands.
pub enum WolStage {
    /// The call fails with this message.
    Fail(String),
    /// The call answers.
    Reply(ToolResult),
    /// Run `wakeonlan` for `mac`; `finish` then answers.
    Run { mac: String, command: CommandSpec },
}

pub enum WolStageView {
    Fail(Seq<char>),
    Reply(ReplyView),
    Run { mac: Seq<char>, command: CommandView },
}

impl View for WolStage {
    type V = WolStageView;

    open spec fn view(&self) -> WolStageView {
        match self {
            WolStage::Fail(m) => WolStageView::Fail(m@),
            WolStage::Reply(r) => WolStageView::Reply(r@),
            WolStage::Run { mac, command } => WolStageView::Run { mac: mac@, command: command@ },
        }
    }
}

pub open spec fn missing_mac_msg() -> Seq<char> {
    "Missing 'mac_address' parameter. Use 'help' for usage guide."@
}

pub open spec fn invalid_mac_msg(m: Seq<char>) -> Seq<char> {
    "Invalid MAC address format: '"@ + m
        + "'. Expected format: AA:BB:CC:DD:EE:FF, AA-BB-CC-DD-EE-FF, or AABCCDDEEFF"@
}

pub open spec fn wol_command(m: Seq<char>) -> CommandView {
    CommandView { program: "wakeonlan"@, args: seq![m] }
}

/// The first step: a call without an address fails, `help` is answered with
/// the usage guide, every other address first needs the security policy's
/// consent.
pub fn begin(args: &WolArgs) -> (o: Opening)
    ensures
        o@ matches OpeningView::Reply(r) ==> r.wf(),
        o@ == opening_spec(opt_view(args.mac_address), missing_mac_msg(), help_text(), tool_name()),
{
    match &args.mac_address {
        None => Opening::Fail(
            String::from_str("Missing 'mac_address' parameter. Use 'help' for usage guide."),
        ),
        Some(m) => if is_help(m) {
            Opening::Reply(ok_result(generate_help()))
        } else {
            Opening::CheckPolicy(name())
        },
    }
}

/// The stage reached once the policy has answered.
pub open spec fn dispatch_spec(
    mac: Option<Seq<char>>,
    verdict: Result<(), Seq<char>>,
) -> WolStageView {
    match mac {
        None => WolStageView::Fail(missing_mac_msg()),
        Some(m) => if m == "help"@ {
            WolStageView::Reply(reply_ok(help_text()))
        } else {
            match verdict {
                Err(e) => WolStageView::Reply(reply_err(Seq::empty(), e)),
                Ok(()) => if valid_mac(m) {
                    WolStageView::Run { mac: m, command: wol_command(m) }
                } else {
                    WolStageView::Reply(reply_err(Seq::empty(), invalid_mac_msg(m)))
                },
            }
        },
    }
}

/// Where the first step settles a call, the later stage settles it the same
/// way whatever the policy answered; the policy's answer only counts where the
/// first step asked for it.
pub proof fn lemma_dispatch_agrees_with_begin(mac: Option<Seq<char>>, verdict: Result<(), Seq<char>>)
    ensures
        opening_spec(mac, missing_mac_msg(), help_text(), tool_name()) matches OpeningView::Fail(m)
            ==> dispatch_spec(mac, verdict) == WolStageView::Fail(m),
        opening_spec(mac, missing_mac_msg(), help_text(), tool_name()) matches OpeningView::Reply(r)
            ==> dispatch_spec(mac, verdict) == WolStageView::Reply(r),
{
}

/// `wakeonlan` runs exactly when the policy consented to an address other than
/// `help` that is twelve hexadecimal digits apart from `:` and `-`; it runs
/// with that address as its only argument.
pub proof fn lemma_wake_run(mac: Option<Seq<char>>, verdict: Result<(), Seq<char>>)
    ensures
        dispatch_spec(mac, verdict) matches WolStageView::Run { mac: m, command } ==> {
            &&& verdict is Ok
            &&& mac == Some(m)
            &&& m != "help"@
            &&& without_separators(m).len() == 12
            &&& forall|i: int|
                0 <= i < 12 ==> in_range(#[trigger] without_separators(m)[i], '0', '9') || in_range(
                    without_separators(m)[i],
                    'A',
                    'F',
                ) || in_range(without_separators(m)[i], 'a', 'f')
            &&& command == CommandView { program: "wakeonlan"@, args: seq![m] }
        },
        (verdict is Ok && (mac matches Some(m) && m != "help"@ && valid_mac(m))) ==> dispatch_spec(
            mac,
            verdict,
        ) is Run,
{
    if let Some(m) = mac {
        lemma_valid_mac_meaning(m);
    }
}

/// The stage after the policy answered `verdict`: a refusal is answered with
/// its message, an invalid address is answered as such, and a valid one is
/// handed to `wakeonlan`. `wakeonlan` only runs with the policy's consent and
/// on a valid address.
pub fn dispatch(args: &WolArgs, verdict: Result<(), String>) -> (st: WolStage)
    ensures
        st@ == dispatch_spec(opt_view(args.mac_address), verdict_view(verdict)),
        st@ matches WolStageView::Run { mac, .. } ==> verdict is Ok && valid_mac(mac),
        st@ matches WolStageView::Reply(r) ==> r.wf(),
{
    let m = match &args.mac_address {
        None => {
            return WolStage::Fail(
                String::from_str("Missing 'mac_address' parameter. Use 'help' for usage guide."),
            );
        },
        Some(m) => m,
    };
    if is_help(m) {
        return WolStage::Reply(ok_result(generate_help()));
    }
    if let Err(e) = verdict {
        return WolStage::Reply(err_only(e));
    }
    if !is_valid_mac_address(m.as_str()) {
        let mut e = String::from_str("Invalid MAC address format: '");
        e.append(m.as_str());
        e.append("'. Expected format: AA:BB:CC:DD:EE:FF, AA-BB-CC-DD-EE-FF, or AABCCDDEEFF");
        return WolStage::Reply(err_only(e));
    }
    let mut cargs: Vec<String> = Vec::new();
    cargs.push(m.clone());
    let command = CommandSpec { program: String::from_str("wakeonlan"), args: cargs };
    assert(command@.args =~= wol_command(m@).args);
    WolStage::Run { mac: m.clone(), command }
}

/// `label` followed by `text`, or nothing when `text` is empty.
pub open spec fn note(label: Seq<char>, text: Seq<char>) -> Seq<char> {
    if text.len() > 0 {
        label + text
    } else {
        Seq::empty()
    }
}

/// What the `wakeonlan` run reports.
pub open spec fn wol_report(mac: Seq<char>, o: OutcomeView) -> ReplyView {
    match o {
        OutcomeView::SpawnFailed(e) => reply_err(
            Seq::empty(),
            "Failed to execute wakeonlan command: "@ + e
                + ". Ensure `wakeonlan` is installed on the system."@,
        ),
        OutcomeView::Exited { success, code, stdout, stderr } => if success {
            reply_ok(
                "Wake-on-LAN magic packet sent to "@ + mac + "."@ + note("\nOutput: "@, trim(stdout))
                    + note("\nWarning: "@, trim(stderr)),
            )
        } else {
            reply_err(
                trim(stdout),
                "wakeonlan command failed with exit code "@ + code_text(code) + ".\n"@ + trim(stderr),
            )
        },
    }
}

/// The answer once `wakeonlan` for `mac` has ended: on success the trimmed
/// output and error output are added as notes when not empty.
pub fn finish(mac: &String, outcome: &CommandOutcome) -> (r: ToolResult)
    ensures
        r@ == wol_report(mac@, outcome@),
        r@.wf(),
{
    match outcome {
        CommandOutcome::SpawnFailed(e) => {
            let mut m = String::from_str("Failed to execute wakeonlan command: ");
            m.append(e.as_str());
            m.append(". Ensure `wakeonlan` is installed on the system.");
            err_only(m)
        },
        CommandOutcome::Exited { success, code, stdout, stderr } => {
            let out_t = trim_text(stdout.as_str());
            if *success {
                let err_t = trim_text(stderr.as_str());
                let mut msg = String::from_str("Wake-on-LAN magic packet sent to ");
                msg.append(mac.as_str());
                msg.append(".");
                let ghost base = msg@;
                if out_t.as_str().unicode_len() > 0 {
                    msg.append("\nOutput: ");
                    msg.append(out_t.as_str());
                }
                assert(msg@ =~= base + note("\nOutput: "@, out_t@));
                let ghost base2 = msg@;
                if err_t.as_str().unicode_len() > 0 {
                    msg.append("\nWarning: ");
                    msg.append(err_t.as_str());
                }
                assert(msg@ =~= base2 + note("\nWarning: "@, err_t@));
                ok_result(msg)
            } else {
                let mut m = String::from_str("wakeonlan command failed with exit code ");
                let c = exit_code_text(*code);
                m.append(c.as_str());
                m.append(".\n");
                let e = trim_text(stderr.as_str());
                m.append(e.as_str());
                err_result(out_t, m)
            }
        },
    }
}

} // verus!
