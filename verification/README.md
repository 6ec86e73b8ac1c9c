# zeroclaw_tools

Three network tools for an agent runtime: an IPv4 checker (ping, local and
public address), an SSH remote-control tool and a Wake-on-LAN sender.

- `src/` is the verified library. `text` holds the character-level text
  functions (trimming, splitting, line and word handling, decimal numerals),
  each proved against a specification over `Seq<char>`. `tool` holds what the
  tools share. `check_ipv4`, `ssh_control` and `wake_on_lan` hold each tool's
  validation, help text, parameter list and the decisions of a call, written as
  steps: the first step (`begin`), the step once the security policy answered
  (`dispatch`), and the steps once a command ended.
- `app/` runs those steps: it reads the JSON arguments, asks the security
  policy, runs the commands with tokio and hands their outcome back.
- `tests/` runs the library on concrete inputs.

## Where the library departs from the original code

- An IPv4 address part must be one or more ASCII digits worth at most 255
  (leading zeros allowed). The original checked each part with
  `str::parse::<u8>`, which also accepts a leading `+`, so it took
  `+1.2.3.4` as an address. That sign is no part of the documented `x.x.x.x`
  form, and the library knowingly rejects it.
- The original tools implemented the runtime's `Tool` trait and asked the
  runtime's security policy; neither is available here. `app/` defines its own
  `SecurityPolicy` trait (`enforce_act`) in its place and gives each tool
  inherent `name`, `description`, `parameters_schema` and `execute` methods.
  The JSON Schema's `"type": "object"` and `"type": "string"` tags are written
  by `app/` when it turns the library's parameter list into JSON.
