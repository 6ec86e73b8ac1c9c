//! The SSH remote-control tool: runs a preset or a custom command on a remote
//! machine. Here stand its preset table, its help text and every decision it
//! takes around the SSH run.

use vstd::prelude::*;
use crate::text::{contains, lemma_contains_self, lemma_contains_within, trim, trim_text};
use crate::tool::{
    code_text, err_only, err_result, exit_code_text, is_help, ok_result, opening_spec, opt_view,
    param, reply_err, reply_ok, text_is, texts, verdict_view, CommandOutcome, CommandSpec,
    CommandView, Opening, OpeningView, OutcomeView, ParamSchema, ParamView, ReplyView,
    SchemaView, ToolResult,
};

verus! {

/// The preset actions and the remote command of each, in order.
pub open spec fn presets() -> Seq<(Seq<char>, Seq<char>)> {
    seq![
        ("shutdown"@, "shutdown /s /t 0"@),
        ("restart"@, "shutdown /r /t 0"@),
        ("lock"@, "rundll32.exe user32.dll,LockWorkStation"@),
        ("sleep"@, "rundll32.exe powrprof.dll,SetSuspendState 0,1,0"@),
        ("hibernate"@, "shutdown /h"@),
        ("logoff"@, "shutdown /l"@),
    ]
}

/// The command of the first entry of `table` named `name`.
pub open spec fn lookup(table: Seq<(Seq<char>, Seq<char>)>, name: Seq<char>) -> Option<Seq<char>>
    decreases table.len(),
{
    if table.len() == 0 {
        None
    } else if table[0].0 == name {
        Some(table[0].1)
    } else {
        lookup(table.drop_first(), name)
    }
}

fn preset(i: usize) -> (r: (&'static str, &'static str))
    requires
        i < 6,
    ensures
        (r.0@, r.1@) == presets()[i as int],
{
    if i == 0 {
        ("shutdown", "shutdown /s /t 0")
    } else if i == 1 {
        ("restart", "shutdown /r /t 0")
    } else if i == 2 {
        ("lock", "rundll32.exe user32.dll,LockWorkStation")
    } else if i == 3 {
        ("sleep", "rundll32.exe powrprof.dll,SetSuspendState 0,1,0")
    } else if i == 4 {
        ("hibernate", "shutdown /h")
    } else {
        ("logoff", "shutdown /l")
    }
}

pub open spec fn opt_str_view(o: Option<&str>) -> Option<Seq<char>> {
    match o {
        Some(s) => Some(s@),
        None => None,
    }
}

/// Resolve a preset action name to its remote command, or return None for custom commands.
pub fn resolve_action(action: &str) -> (r: Option<&'static str>)
    ensures
        opt_str_view(r) == lookup(presets(), action@),
{
    let a = String::from_str(action);
    let mut i: usize = 0;
    assert(presets().skip(0) =~= presets());
    while i < 6
        invariant
            a@ == action@,
            i <= 6,
            lookup(presets(), action@) == lookup(presets().skip(i as int), action@),
        decreases 6 - i,
    {
        let (name, cmd) = preset(i);
        assert(presets().skip(i as int)[0] == presets()[i as int]);
        assert(presets().skip(i as int).drop_first() =~= presets().skip(i + 1));
        let n = String::from_str(name);
        if n == a {
            return Some(cmd);
        }
        i = i + 1;
    }
    assert(presets().skip(6) =~= Seq::<(Seq<char>, Seq<char>)>::empty());
    None
}

/// The help line of one preset.
pub open spec fn preset_line(p: (Seq<char>, Seq<char>)) -> Seq<char> {
    "  \u{2022} `"@ + p.0 + "` \u{2014} "@ + p.1 + "\n"@
}

/// The help lines of the presets of `table`, in order.
pub open spec fn preset_lines(table: Seq<(Seq<char>, Seq<char>)>) -> Seq<char>
    decreases table.len(),
{
    if table.len() == 0 {
        Seq::empty()
    } else {
        preset_lines(table.drop_last()) + preset_line(table.last())
    }
}

pub open spec fn help_head() -> Seq<char> {
    "\u{1f527} **SSH Control Tool** \u{2014} Remote machine control via SSH\n\n"@
        + "\u{26a1}\u{fe0f} **Preset Actions:**\n"@
}

pub open spec fn help_tail() -> Seq<char> {
    "\n\u{1f4dd} **Usage Examples:**\n"@ + "  ```json\n"@
        + "{\"action\": \"shutdown\", \"host\": \"192.168.2.168\", \"user\": \"hello\"}"@
        + "\n  ```\n"@ + "  ```json\n"@
        + "{\"action\": \"custom\", \"host\": \"192.168.2.168\", \"user\": \"hello\", \"command\": \"ipconfig\"}"@
        + "\n  ```\n"@ + "\n\u{1f511} **Parameters:**\n"@
        + "  \u{2022} `action` \u{2014} Required: help, shutdown, restart, lock, sleep, hibernate, logoff, custom\n"@
        + "  \u{2022} `host` \u{2014} Remote IP or hostname (required for non-help actions)\n"@
        + "  \u{2022} `user` \u{2014} SSH username (required for non-help actions)\n"@
        + "  \u{2022} `command` \u{2014} Custom command (required if action is 'custom')\n"@
        + "  \u{2022} `key_path` \u{2014} SSH key path (default: ~/.ssh/id_ed25519)\n"@
}

/// The usage guide of the tool: a head, one line per preset, and the usage
/// examples and parameters.
pub open spec fn help_text() -> Seq<char> {
    help_head() + preset_lines(presets()) + help_tail()
}

/// Generate a help message with usage examples for the ssh_control tool.
pub fn generate_help() -> (r: String)
    ensures
        r@ == help_text(),
{
    let mut help = String::from_str(
        "\u{1f527} **SSH Control Tool** \u{2014} Remote machine control via SSH\n\n",
    );
    help.append("\u{26a1}\u{fe0f} **Preset Actions:**\n");
    let mut i: usize = 0;
    assert(presets().take(0) =~= Seq::<(Seq<char>, Seq<char>)>::empty());
    assert(help@ =~= help_head() + preset_lines(presets().take(0)));
    while i < 6
        invariant
            i <= 6,
            help@ == help_head() + preset_lines(presets().take(i as int)),
        decreases 6 - i,
    {
        let (name, cmd) = preset(i);
        help.append("  \u{2022} `");
        help.append(name);
        help.append("` \u{2014} ");
        help.append(cmd);
        help.append("\n");
        assert(presets().take(i + 1).drop_last() =~= presets().take(i as int));
        assert(presets().take(i + 1).last() == presets()[i as int]);
        assert(help@ =~= help_head() + preset_lines(presets().take(i + 1)));
        i = i + 1;
    }
    assert(presets().take(6) =~= presets());
    help.append("\n\u{1f4dd} **Usage Examples:**\n");
    help.append("  ```json\n");
    help.append("{\"action\": \"shutdown\", \"host\": \"192.168.2.168\", \"user\": \"hello\"}");
    help.append("\n  ```\n");
    help.append("  ```json\n");
    help.append(
        "{\"action\": \"custom\", \"host\": \"192.168.2.168\", \"user\": \"hello\", \"command\": \"ipconfig\"}",
    );
    help.append("\n  ```\n");
    help.append("\n\u{1f511} **Parameters:**\n");
    help.append(
        "  \u{2022} `action` \u{2014} Required: help, shutdown, restart, lock, sleep, hibernate, logoff, custom\n",
    );
    help.append("  \u{2022} `host` \u{2014} Remote IP or hostname (required for non-help actions)\n");
    help.append("  \u{2022} `user` \u{2014} SSH username (required for non-help actions)\n");
    help.append("  \u{2022} `command` \u{2014} Custom command (required if action is 'custom')\n");
    help.append("  \u{2022} `key_path` \u{2014} SSH key path (default: ~/.ssh/id_ed25519)\n");
    assert(help@ =~= help_text());
    help
}

proof fn lemma_lines_contain(table: Seq<(Seq<char>, Seq<char>)>, i: int)
    requires
        0 <= i < table.len(),
    ensures
        contains(preset_lines(table), preset_line(table[i])),
    decreases table.len(),
{
    let prev = preset_lines(table.drop_last());
    let last = preset_line(table.last());
    if i == table.len() - 1 {
        lemma_contains_self(last);
        lemma_contains_within(prev, last, Seq::empty(), last);
        assert(prev + last + Seq::<char>::empty() =~= prev + last);
    } else {
        lemma_lines_contain(table.drop_last(), i);
        assert(table.drop_last()[i] == table[i]);
        lemma_contains_within(Seq::empty(), prev, last, preset_line(table[i]));
        assert(Seq::<char>::empty() + prev + last =~= prev + last);
    }
}

/// The help text lists every preset action together with its remote command.
pub proof fn lemma_help_lists_every_preset(i: int)
    requires
        0 <= i < presets().len(),
    ensures
        contains(help_text(), preset_line(presets()[i])),
{
    lemma_lines_contain(presets(), i);
    let line = preset_line(presets()[i]);
    lemma_contains_within(help_head(), preset_lines(presets()), help_tail(), line);
}

/// The tool's name, which the security policy is asked about.
pub open spec fn tool_name() -> Seq<char> {
    "ssh_control"@
}

/// The tool's name.
pub fn name() -> (r: String)
    ensures
        r@ == tool_name(),
{
    String::from_str("ssh_control")
}

pub open spec fn description_text() -> Seq<char> {
    "Control a remote Windows machine via SSH. Actions: shutdown, restart, lock, sleep, hibernate, logoff, custom. Use 'help' action for full usage guide. Example: /ssh_control {\"host\":\"192.168.2.168\",\"user\":\"hello\",\"action\":\"shutdown\"}"@
}

/// What the tool does, in one paragraph.
pub fn description() -> (r: String)
    ensures
        r@ == description_text(),
{
    String::from_str(
        "Control a remote Windows machine via SSH. Actions: shutdown, restart, lock, sleep, hibernate, logoff, custom. Use 'help' action for full usage guide. Example: /ssh_control {\"host\":\"192.168.2.168\",\"user\":\"hello\",\"action\":\"shutdown\"}",
    )
}

/// The parameters: `host`, `user`, `action` (one of help, the presets and
/// custom; required), `command` and `key_path`.
pub open spec fn schema_spec() -> SchemaView {
    SchemaView {
        properties: seq![
            ParamView {
                name: "host"@,
                description: "Remote host IP or hostname (e.g. '192.168.2.168')"@,
                choices: None,
            },
            ParamView { name: "user"@, description: "SSH username (e.g. 'hello')"@, choices: None },
            ParamView {
                name: "action"@,
                description: "Action to perform. Use 'help' for full usage guide and examples."@,
                choices: Some(
                    seq![
                        "help"@,
                        "shutdown"@,
                        "restart"@,
                        "lock"@,
                        "sleep"@,
                        "hibernate"@,
                        "logoff"@,
                        "custom"@,
                    ],
                ),
            },
            ParamView {
                name: "command"@,
                description: "Custom command to run (required if action is 'custom')"@,
                choices: None,
            },
            ParamView {
                name: "key_path"@,
                description: "Path to SSH private key (default: ~/.ssh/id_ed25519)"@,
                choices: None,
            },
        ],
        required: seq!["action"@],
    }
}

pub fn parameters_schema() -> (r: ParamSchema)
    ensures
        r@ == schema_spec(),
{
    let actions: &[&str] = &[
        "help",
        "shutdown",
        "restart",
        "lock",
        "sleep",
        "hibernate",
        "logoff",
        "custom",
    ];
    let mut properties = Vec::new();
    properties.push(param("host", "Remote host IP or hostname (e.g. '192.168.2.168')", None));
    properties.push(param("user", "SSH username (e.g. 'hello')", None));
    properties.push(
        param(
            "action",
            "Action to perform. Use 'help' for full usage guide and examples.",
            Some(actions),
        ),
    );
    properties.push(param("command", "Custom command to run (required if action is 'custom')", None));
    properties.push(param("key_path", "Path to SSH private key (default: ~/.ssh/id_ed25519)", None));
    let required: &[&str] = &["action"];
    let r = ParamSchema { properties, required: texts(required) };
    assert(actions@.map_values(|a: &str| a@) =~= seq![
        "help"@,
        "shutdown"@,
        "restart"@,
        "lock"@,
        "sleep"@,
        "hibernate"@,
        "logoff"@,
        "custom"@,
    ]);
    assert(r@.properties[0] == schema_spec().properties[0]);
    assert(r@.properties[1] == schema_spec().properties[1]);
    assert(r@.properties[2] == schema_spec().properties[2]);
    assert(r@.properties[3] == schema_spec().properties[3]);
    assert(r@.properties[4] == schema_spec().properties[4]);
    assert(r@.properties =~= schema_spec().properties);
    assert(r@.required =~= schema_spec().required);
    r
}

/// The arguments of a call: each field holds the argument's text, or `None`
/// where the argument is absent or not a string.
pub struct SshArgs {
    pub action: Option<String>,
    pub host: Option<String>,
    pub user: Option<String>,
    pub command: Option<String>,
    pub key_path: Option<String>,
}

pub struct SshArgsView {
    pub action: Option<Seq<char>>,
    pub host: Option<Seq<char>>,
    pub user: Option<Seq<char>>,
    pub command: Option<Seq<char>>,
    pub key_path: Option<Seq<char>>,
}

impl View for SshArgs {
    type V = SshArgsView;

    open spec fn view(&self) -> SshArgsView {
        SshArgsView {
            action: opt_view(self.action),
            host: opt_view(self.host),
            user: opt_view(self.user),
            command: opt_view(self.command),
            key_path: opt_view(self.key_path),
        }
    }
}

/// Where a call stands.
pub enum SshStage {
    /// The call fails with this message.
    Fail(String),
    /// The call answers.
    Reply(ToolResult),
    /// Run the SSH command for `action` on `target`; `finish` then answers.
    Run { action: String, target: String, command: CommandSpec },
}

pub enum SshStageView {
    Fail(Seq<char>),
    Reply(ReplyView),
    Run { action: Seq<char>, target: Seq<char>, command: CommandView },
}

impl View for SshStage {
    type V = SshStageView;

    open spec fn view(&self) -> SshStageView {
        match self {
            SshStage::Fail(m) => SshStageView::Fail(m@),
            SshStage::Reply(r) => SshStageView::Reply(r@),
            SshStage::Run { action, target, command } => SshStageView::Run {
                action: action@,
                target: target@,
                command: command@,
            },
        }
    }
}

pub open spec fn missing_action_msg() -> Seq<char> {
    "Missing 'action' parameter"@
}

pub open spec fn default_key_path() -> Seq<char> {
    "~/.ssh/id_ed25519"@
}

/// The SSH invocation that runs `remote` as `target` with the key at `key`.
pub open spec fn ssh_command(key: Seq<char>, target: Seq<char>, remote: Seq<char>) -> CommandView {
    CommandView {
        program: "ssh"@,
        args: seq![
            "-i"@,
            key,
            "-o"@,
            "StrictHostKeyChecking=no"@,
            "-o"@,
            "UserKnownHostsFile=/dev/null"@,
            "-o"@,
            "ConnectTimeout=10"@,
            target,
            remote,
        ],
    }
}

/// The first step: a call without an action fails, `help` is answered with the
/// usage guide, every other action first needs the security policy's consent.
pub fn begin(args: &SshArgs) -> (o: Opening)
    ensures
        o@ matches OpeningView::Reply(r) ==> r.wf(),
        o@ == opening_spec(args@.action, missing_action_msg(), help_text(), tool_name()),
{
    match &args.action {
        None => Opening::Fail(String::from_str("Missing 'action' parameter")),
        Some(a) => if is_help(a) {
            Opening::Reply(ok_result(generate_help()))
        } else {
            Opening::CheckPolicy(name())
        },
    }
}

/// The remote command an action asks for: the given command for `custom`,
/// the preset's command otherwise.
pub open spec fn remote_command(
    action: Seq<char>,
    command: Option<Seq<char>>,
) -> Option<Seq<char>> {
    if action == "custom"@ {
        command
    } else {
        lookup(presets(), action)
    }
}

pub open spec fn no_remote_msg(action: Seq<char>) -> Seq<char> {
    if action == "custom"@ {
        "Missing 'command' parameter for custom action"@
    } else {
        "Unknown action '"@ + action + "'. Use action 'help' for full usage guide."@
    }
}

/// The stage reached once the policy has answered.
pub open spec fn dispatch_spec(args: SshArgsView, verdict: Result<(), Seq<char>>) -> SshStageView {
    match args.action {
        None => SshStageView::Fail(missing_action_msg()),
        Some(a) => if a == "help"@ {
            SshStageView::Reply(reply_ok(help_text()))
        } else {
            match verdict {
                Err(e) => SshStageView::Reply(reply_err(Seq::empty(), e)),
                Ok(()) => match args.host {
                    None => SshStageView::Fail(
                        "Missing 'host' parameter. Use action 'help' for usage guide."@,
                    ),
                    Some(h) => match args.user {
                        None => SshStageView::Fail(
                            "Missing 'user' parameter. Use action 'help' for usage guide."@,
                        ),
                        Some(u) => match remote_command(a, args.command) {
                            None => SshStageView::Fail(no_remote_msg(a)),
                            Some(rc) => {
                                let key = match args.key_path {
                                    Some(k) => k,
                                    None => default_key_path(),
                                };
                                let target = u + "@"@ + h;
                                SshStageView::Run {
                                    action: a,
                                    target,
                                    command: ssh_command(key, target, rc),
                                }
                            },
                        },
                    },
                },
            }
        },
    }
}

/// Where the first step settles a call, the later stage settles it the same
/// way whatever the policy answered; the policy's answer only counts where the
/// first step asked for it.
pub proof fn lemma_dispatch_agrees_with_begin(args: SshArgsView, verdict: Result<(), Seq<char>>)
    ensures
        opening_spec(args.action, missing_action_msg(), help_text(), tool_name()) matches OpeningView::Fail(
            m,
        ) ==> dispatch_spec(args, verdict) == SshStageView::Fail(m),
        opening_spec(args.action, missing_action_msg(), help_text(), tool_name()) matches OpeningView::Reply(
            r,
        ) ==> dispatch_spec(args, verdict) == SshStageView::Reply(r),
{
}

proof fn lemma_lookup_finds_entry(table: Seq<(Seq<char>, Seq<char>)>, name: Seq<char>)
    ensures
        lookup(table, name) matches Some(c) ==> exists|i: int|
            0 <= i < table.len() && #[trigger] table[i] == (name, c),
        lookup(table, name) is None <==> forall|i: int|
            0 <= i < table.len() ==> (#[trigger] table[i]).0 != name,
    decreases table.len(),
{
    if table.len() > 0 {
        let rest = table.drop_first();
        lemma_lookup_finds_entry(rest, name);
        if table[0].0 != name {
            if let Some(c) = lookup(rest, name) {
                let i = choose|i: int| 0 <= i < rest.len() && #[trigger] rest[i] == (name, c);
                assert(table[i + 1] == rest[i]);
            }
            assert forall|i: int| 0 < i < table.len() implies (#[trigger] table[i]).0 == rest[i
                - 1].0 by {}
            if forall|i: int| 0 <= i < table.len() ==> (#[trigger] table[i]).0 != name {
                assert forall|i: int| 0 <= i < rest.len() implies (#[trigger] rest[i]).0 != name by {
                    assert(rest[i] == table[i + 1]);
                }
            }
        } else {
            assert(table[0] == (name, table[0].1));
        }
    }
}

/// A preset name resolves to the command listed with it, and a name that no
/// preset has resolves to nothing.
pub proof fn lemma_presets_resolve(name: Seq<char>)
    ensures
        lookup(presets(), name) matches Some(c) ==> exists|i: int|
            0 <= i < presets().len() && #[trigger] presets()[i] == (name, c),
        lookup(presets(), name) is None <==> forall|i: int|
            0 <= i < presets().len() ==> (#[trigger] presets()[i]).0 != name,
{
    lemma_lookup_finds_entry(presets(), name);
}

/// An SSH run comes about exactly when the policy consented, the action is
/// given and is not `help`, host and user are given, and the remote command is
/// known: the given command for `custom`, a preset's command otherwise. The
/// run logs in as `user@host` with the given key, or `~/.ssh/id_ed25519` where
/// none is given, with host-key checks off and a ten-second connect timeout,
/// and runs that remote command.
pub proof fn lemma_ssh_run(args: SshArgsView, verdict: Result<(), Seq<char>>)
    ensures
        dispatch_spec(args, verdict) matches SshStageView::Run { action, target, command } ==> {
            &&& verdict is Ok
            &&& args.action == Some(action)
            &&& action != "help"@
            &&& args.host is Some
            &&& args.user is Some
            &&& target == args.user.unwrap() + "@"@ + args.host.unwrap()
            &&& command.program == "ssh"@
            &&& command.args.len() == 10
            &&& command.args[0] == "-i"@
            &&& command.args[1] == (match args.key_path {
                Some(k) => k,
                None => "~/.ssh/id_ed25519"@,
            })
            &&& command.args.subrange(2, 8) == seq![
                "-o"@,
                "StrictHostKeyChecking=no"@,
                "-o"@,
                "UserKnownHostsFile=/dev/null"@,
                "-o"@,
                "ConnectTimeout=10"@,
            ]
            &&& command.args[8] == target
            &&& if action == "custom"@ {
                args.command == Some(command.args[9])
            } else {
                exists|i: int|
                    0 <= i < presets().len() && #[trigger] presets()[i] == (action, command.args[9])
            }
        },
        ({
            &&& verdict is Ok
            &&& args.action matches Some(a)
            &&& a != "help"@
            &&& args.host is Some
            &&& args.user is Some
            &&& if a == "custom"@ {
                args.command is Some
            } else {
                exists|i: int| 0 <= i < presets().len() && (#[trigger] presets()[i]).0 == a
            }
        }) ==> dispatch_spec(args, verdict) is Run,
{
    if let Some(a) = args.action {
        lemma_presets_resolve(a);
        if let SshStageView::Run { action, target, command } = dispatch_spec(args, verdict) {
            assert(command.args.subrange(2, 8) =~= seq![
                "-o"@,
                "StrictHostKeyChecking=no"@,
                "-o"@,
                "UserKnownHostsFile=/dev/null"@,
                "-o"@,
                "ConnectTimeout=10"@,
            ]);
        }
    }
}

/// The stage after the policy answered `verdict`. A refusal is answered with
/// its message. Otherwise the host, then the user, then the remote command
/// must be there (the given one for `custom`, a preset's for the others), or
/// the call fails; with all three, the SSH command is run, with the given key
/// or `~/.ssh/id_ed25519`. No SSH command is run without the policy's consent.
pub fn dispatch(args: &SshArgs, verdict: Result<(), String>) -> (st: SshStage)
    ensures
        st@ == dispatch_spec(args@, verdict_view(verdict)),
        st@ is Run ==> verdict is Ok,
        st@ matches SshStageView::Reply(r) ==> r.wf(),
{
    let a = match &args.action {
        None => {
            return SshStage::Fail(String::from_str("Missing 'action' parameter"));
        },
        Some(a) => a,
    };
    if is_help(a) {
        return SshStage::Reply(ok_result(generate_help()));
    }
    if let Err(e) = verdict {
        return SshStage::Reply(err_only(e));
    }
    let h = match &args.host {
        None => {
            return SshStage::Fail(
                String::from_str("Missing 'host' parameter. Use action 'help' for usage guide."),
            );
        },
        Some(h) => h,
    };
    let u = match &args.user {
        None => {
            return SshStage::Fail(
                String::from_str("Missing 'user' parameter. Use action 'help' for usage guide."),
            );
        },
        Some(u) => u,
    };
    let key = match &args.key_path {
        Some(k) => k.clone(),
        None => String::from_str("~/.ssh/id_ed25519"),
    };
    let remote = if text_is(a, "custom") {
        match &args.command {
            Some(c) => c.clone(),
            None => {
                return SshStage::Fail(String::from_str("Missing 'command' parameter for custom action"));
            },
        }
    } else {
        match resolve_action(a.as_str()) {
            Some(c) => String::from_str(c),
            None => {
                let mut m = String::from_str("Unknown action '");
                m.append(a.as_str());
                m.append("'. Use action 'help' for full usage guide.");
                return SshStage::Fail(m);
            },
        }
    };
    let mut target = u.clone();
    target.append("@");
    target.append(h.as_str());
    let mut cargs: Vec<String> = Vec::new();
    cargs.push(String::from_str("-i"));
    cargs.push(key);
    cargs.push(String::from_str("-o"));
    cargs.push(String::from_str("StrictHostKeyChecking=no"));
    cargs.push(String::from_str("-o"));
    cargs.push(String::from_str("UserKnownHostsFile=/dev/null"));
    cargs.push(String::from_str("-o"));
    cargs.push(String::from_str("ConnectTimeout=10"));
    cargs.push(target.clone());
    cargs.push(remote);
    let command = CommandSpec { program: String::from_str("ssh"), args: cargs };
    let ghost keyv = match args@.key_path {
        Some(k) => k,
        None => default_key_path(),
    };
    assert(command@.args =~= ssh_command(keyv, target@, command@.args[9]).args);
    SshStage::Run { action: a.clone(), target, command }
}

/// What the SSH run reports.
pub open spec fn ssh_report(action: Seq<char>, target: Seq<char>, o: OutcomeView) -> ReplyView {
    match o {
        OutcomeView::SpawnFailed(e) => reply_err(Seq::empty(), "Failed to execute SSH command: "@ + e),
        OutcomeView::Exited { success, code, stdout, stderr } => if success {
            reply_ok("Successfully executed '"@ + action + "' on "@ + target + ".\n"@ + trim(stdout))
        } else {
            reply_err(
                trim(stdout),
                "SSH command failed (exit code "@ + code_text(code) + "). "@ + trim(stderr),
            )
        },
    }
}

/// The answer once the SSH command for `action` on `target` has ended.
pub fn finish(action: &String, target: &String, outcome: &CommandOutcome) -> (r: ToolResult)
    ensures
        r@ == ssh_report(action@, target@, outcome@),
        r@.wf(),
{
    match outcome {
        CommandOutcome::SpawnFailed(e) => {
            let mut m = String::from_str("Failed to execute SSH command: ");
            m.append(e.as_str());
            err_only(m)
        },
        CommandOutcome::Exited { success, code, stdout, stderr } => {
            if *success {
                let mut out = String::from_str("Successfully executed '");
                out.append(action.as_str());
                out.append("' on ");
                out.append(target.as_str());
                out.append(".\n");
                let t = trim_text(stdout.as_str());
                out.append(t.as_str());
                ok_result(out)
            } else {
                let mut m = String::from_str("SSH command failed (exit code ");
                let c = exit_code_text(*code);
                m.append(c.as_str());
                m.append("). ");
                let e = trim_text(stderr.as_str());
                m.append(e.as_str());
                err_result(trim_text(stdout.as_str()), m)
            }
        },
    }
}

} // verus!
