use vstd::prelude::*;
use vstd::string::{StrSliceExecFns, StringExecFns};

verus! {

/// The admin console's subcommands, by their command-line names.
pub open spec fn command_names() -> Seq<Seq<char>> {
    seq![
        "allow-registration"@,
        "block-media"@,
        "block-media-from-users"@,
        "clear-database-caches"@,
        "clear-service-caches"@,
        "create-user"@,
        "deactivate-all"@,
        "deactivate-user"@,
        "disable-room"@,
        "enable-room"@,
        "get-auth-chain"@,
        "get-pdu"@,
        "hash-and-sign-event"@,
        "incoming-federation"@,
        "list-appservices"@,
        "list-blocked-media"@,
        "list-local-users"@,
        "list-media"@,
        "list-rooms"@,
        "memory-usage"@,
        "parse-pdu"@,
        "purge-media"@,
        "purge-media-from-server"@,
        "purge-media-from-users"@,
        "query-media"@,
        "register-appservice"@,
        "remove-alias"@,
        "reset-password"@,
        "room-info"@,
        "show-config"@,
        "show-media"@,
        "sign-json"@,
        "unblock-media"@,
        "unregister-appservice"@,
        "verify-json"@,
    ]
}

fn admin_command_names() -> (r: Vec<&'static str>)
    ensures
        r@.map_values(|s: &str| s@) == command_names(),
{
    let r = vec![
        "allow-registration",
        "block-media",
        "block-media-from-users",
        "clear-database-caches",
        "clear-service-caches",
        "create-user",
        "deactivate-all",
        "deactivate-user",
        "disable-room",
        "enable-room",
        "get-auth-chain",
        "get-pdu",
        "hash-and-sign-event",
        "incoming-federation",
        "list-appservices",
        "list-blocked-media",
        "list-local-users",
        "list-media",
        "list-rooms",
        "memory-usage",
        "parse-pdu",
        "purge-media",
        "purge-media-from-server",
        "purge-media-from-users",
        "query-media",
        "register-appservice",
        "remove-alias",
        "reset-password",
        "room-info",
        "show-config",
        "show-media",
        "sign-json",
        "unblock-media",
        "unregister-appservice",
        "verify-json",
    ];
    assert(r@.map_values(|s: &str| s@) =~= command_names());
    r
}

/// A parsed admin command: the subcommand's name and the arguments after it.
pub struct AdminCommand {
    pub name: String,
    pub args: Vec<String>,
}

/// `s` with each underscore written as a dash.
pub open spec fn dashed(s: Seq<char>) -> Seq<char> {
    s.map_values(|c: char| if c == '_' { '-' } else { c })
}

/// Whether an argument asks for help.
pub open spec fn is_help_flag(s: Seq<char>) -> bool {
    s == "-h"@ || s == "--help"@
}

/// The arguments after the rewrites: `help <command>` becomes `<command> --help`, and an
/// underscore in the subcommand's name becomes a dash.
pub open spec fn normalized_argv(argv: Seq<Seq<char>>) -> Seq<Seq<char>> {
    let a = if argv.len() > 1 && argv[1] == "help"@ {
        argv.remove(1).push("--help"@)
    } else {
        argv
    };
    if a.len() > 1 {
        a.update(1, dashed(a[1]))
    } else {
        a
    }
}

/// The lines that list the subcommands in the help text.
pub open spec fn command_lines(names: Seq<Seq<char>>) -> Seq<char>
    decreases names.len(),
{
    if names.len() == 0 {
        seq![]
    } else {
        command_lines(names.drop_last()) + "  "@ + names.last() + "\n"@
    }
}

/// The help text of the admin console.
pub open spec fn usage_spec() -> Seq<char> {
    "Usage: @conduit:server.name: <COMMAND>\n\nCommands:\n"@ + command_lines(command_names())
        + "\nOptions:\n  -h, --help  Print help\n"@
}

/// The help text of one subcommand.
pub open spec fn command_usage_spec(name: Seq<char>) -> Seq<char> {
    "Usage: @conduit:server.name: "@ + name + " [ARGS]...\n\nOptions:\n  -h, --help  Print help\n"@
}

/// The error text for a subcommand that does not exist.
pub open spec fn unknown_command_spec(name: Seq<char>) -> Seq<char> {
    "error: unrecognized subcommand '"@ + name
        + "'\n\nUsage: @conduit:server.name: <COMMAND>\n\nFor more information, try '--help'.\n"@
}

/// What parsing `argv` (whose first element names the program) gives: the command, or the
/// text to show instead.
pub open spec fn parse_spec(argv: Seq<Seq<char>>) -> Result<(Seq<char>, Seq<Seq<char>>), Seq<char>> {
    let a = normalized_argv(argv);
    if a.len() < 2 || is_help_flag(a[1]) {
        Err(usage_spec())
    } else if !command_names().contains(a[1]) {
        Err(unknown_command_spec(a[1]))
    } else if exists|j: int| 2 <= j < a.len() && is_help_flag(#[trigger] a[j]) {
        Err(command_usage_spec(a[1]))
    } else {
        Ok((a[1], a.skip(2)))
    }
}

/// The views of a list of strings.
pub open spec fn views(v: Seq<String>) -> Seq<Seq<char>> {
    v.map_values(|s: String| s@)
}

fn str_eq(a: &str, b: &str) -> (r: bool)
    ensures
        r == (a@ == b@),
{
    let n = a.unicode_len();
    if n != b.unicode_len() {
        return false;
    }
    let mut i: usize = 0;
    while i < n
        invariant
            n == a@.len() == b@.len(),
            0 <= i <= n,
            a@.subrange(0, i as int) == b@.subrange(0, i as int),
        decreases n - i,
    {
        if a.get_char(i) != b.get_char(i) {
            assert(a@[i as int] != b@[i as int]);
            return false;
        }
        assert(a@.subrange(0, i + 1) == a@.subrange(0, i as int).push(a@[i as int]));
        assert(b@.subrange(0, i + 1) == b@.subrange(0, i as int).push(b@[i as int]));
        i = i + 1;
    }
    assert(a@ == a@.subrange(0, n as int));
    assert(b@ == b@.subrange(0, n as int));
    true
}

fn dash_underscores(s: &str) -> (r: String)
    ensures
        r@ == dashed(s@),
{
    let n = s.unicode_len();
    let mut out = String::new();
    assert(dashed(s@.subrange(0, 0)) =~= out@);
    let mut i: usize = 0;
    while i < n
        invariant
            n == s@.len(),
            0 <= i <= n,
            out@ == dashed(s@.subrange(0, i as int)),
        decreases n - i,
    {
        if s.get_char(i) == '_' {
            out.append("-");
            proof {
                reveal_strlit("-");
            }
        } else {
            out.append(s.substring_char(i, i + 1));
        }
        assert(dashed(s@.subrange(0, i + 1)) =~= dashed(s@.subrange(0, i as int)) + seq![
            if s@[i as int] == '_' {
                '-'
            } else {
                s@[i as int]
            },
        ]);
        i = i + 1;
        assert(out@ =~= dashed(s@.subrange(0, i as int)));
    }
    assert(s@.subrange(0, n as int) == s@);
    out
}

fn is_help(s: &str) -> (r: bool)
    ensures
        r == is_help_flag(s@),
{
    str_eq(s, "-h") || str_eq(s, "--help")
}

fn usage() -> (r: String)
    ensures
        r@ == usage_spec(),
{
    let names = admin_command_names();
    let mut out = String::from_str("Usage: @conduit:server.name: <COMMAND>\n\nCommands:\n");
    let mut i: usize = 0;
    while i < names.len()
        invariant
            0 <= i <= names@.len(),
            names@.map_values(|s: &str| s@) == command_names(),
            out@ == "Usage: @conduit:server.name: <COMMAND>\n\nCommands:\n"@ + command_lines(
                command_names().take(i as int),
            ),
        decreases names@.len() - i,
    {
        out.append("  ");
        out.append(names[i]);
        out.append("\n");
        assert(command_names().take(i + 1).drop_last() == command_names().take(i as int));
        assert(command_names()[i as int] == names@[i as int]@);
        i = i + 1;
    }
    assert(command_names().take(names@.len() as int) == command_names());
    out.append("\nOptions:\n  -h, --help  Print help\n");
    out
}

fn command_usage(name: &str) -> (r: String)
    ensures
        r@ == command_usage_spec(name@),
{
    let mut out = String::from_str("Usage: @conduit:server.name: ");
    out.append(name);
    out.append(" [ARGS]...\n\nOptions:\n  -h, --help  Print help\n");
    out
}

fn unknown_command(name: &str) -> (r: String)
    ensures
        r@ == unknown_command_spec(name@),
{
    let mut out = String::from_str("error: unrecognized subcommand '");
    out.append(name);
    out.append(
        "'\n\nUsage: @conduit:server.name: <COMMAND>\n\nFor more information, try '--help'.\n",
    );
    out
}

fn is_command_name(name: &str) -> (r: bool)
    ensures
        r == command_names().contains(name@),
{
    let names = admin_command_names();
    let mut i: usize = 0;
    while i < names.len()
        invariant
            0 <= i <= names@.len(),
            names@.map_values(|s: &str| s@) == command_names(),
            forall|j: int| 0 <= j < i ==> command_names()[j] != name@,
        decreases names@.len() - i,
    {
        if str_eq(names[i], name) {
            assert(command_names()[i as int] == name@);
            return true;
        }
        i = i + 1;
    }
    false
}

impl AdminCommand {
    /// Parses an admin command line, already split into arguments; the first argument
    /// names the program. `help <command>` asks for the help of `<command>`, and
    /// underscores in a subcommand's name read as dashes. A request for help, a missing or
    /// unknown subcommand give the text to show instead of a command.
    pub fn try_parse_from(input: Vec<String>) -> (r: Result<AdminCommand, String>)
        ensures
            match (r, parse_spec(views(input@))) {
                (Ok(c), Ok((name, args))) => c.name@ == name && views(c.args@) == args,
                (Err(text), Err(expected)) => text@ == expected,
                _ => false,
            },
    {
        let ghost given = views(input@);
        let mut argv = input;
        if argv.len() > 1 && str_eq(argv[1].as_str(), "help") {
            argv.remove(1);
            argv.push(String::from_str("--help"));
            assert(views(argv@) =~= given.remove(1).push("--help"@));
        }
        let ghost rewritten = views(argv@);
        if argv.len() > 1 {
            let name = dash_underscores(argv[1].as_str());
            argv.remove(1);
            argv.insert(1, name);
            assert(views(argv@) =~= rewritten.update(1, dashed(rewritten[1])));
        }
        assert(views(argv@) == normalized_argv(given));
        let ghost a = views(argv@);
        if argv.len() < 2 || is_help(argv[1].as_str()) {
            return Err(usage());
        }
        if !is_command_name(argv[1].as_str()) {
            return Err(unknown_command(argv[1].as_str()));
        }
        let mut j: usize = 2;
        while j < argv.len()
            invariant
                2 <= j <= argv@.len(),
                a == views(argv@),
                a == normalized_argv(given),
                given == views(input@),
                !is_help_flag(a[1]),
                command_names().contains(a[1]),
                forall|k: int| 2 <= k < j ==> !is_help_flag(#[trigger] a[k]),
            decreases argv@.len() - j,
        {
            if is_help(argv[j].as_str()) {
                assert(a[j as int] == argv@[j as int]@);
                assert(is_help_flag(a[j as int]));
                return Err(command_usage(argv[1].as_str()));
            }
            j = j + 1;
        }
        let args = argv.split_off(2);
        let name = argv.remove(1);
        assert(views(args@) =~= a.skip(2));
        Ok(AdminCommand { name, args })
    }
}

/// Whether `c` is white space in the sense of Unicode's `White_Space` property, which is
/// what `char::is_whitespace` tests.
pub open spec fn is_white_space(c: char) -> bool {
    c == '\t' || c == '\n' || c == '\u{B}' || c == '\u{C}' || c == '\r' || c == ' ' || c
        == '\u{85}' || c == '\u{A0}' || c == '\u{1680}' || ('\u{2000}' <= c && c <= '\u{200A}')
        || c == '\u{2028}' || c == '\u{2029}' || c == '\u{202F}' || c == '\u{205F}' || c
        == '\u{3000}'
}

fn white_space(c: char) -> (r: bool)
    ensures
        r == is_white_space(c),
{
    c == '\t' || c == '\n' || c == '\u{B}' || c == '\u{C}' || c == '\r' || c == ' ' || c
        == '\u{85}' || c == '\u{A0}' || c == '\u{1680}' || ('\u{2000}' <= c && c <= '\u{200A}')
        || c == '\u{2028}' || c == '\u{2029}' || c == '\u{202F}' || c == '\u{205F}' || c
        == '\u{3000}'
}

/// How many white-space characters open `s`.
pub open spec fn leading_space(s: Seq<char>) -> nat
    decreases s.len(),
{
    if s.len() > 0 && is_white_space(s[0]) {
        1 + leading_space(s.skip(1))
    } else {
        0
    }
}

/// How many white-space characters close `s`.
pub open spec fn trailing_space(s: Seq<char>) -> nat
    decreases s.len(),
{
    if s.len() > 0 && is_white_space(s.last()) {
        1 + trailing_space(s.drop_last())
    } else {
        0
    }
}

proof fn lemma_space_bounds(s: Seq<char>)
    ensures
        leading_space(s) <= s.len(),
        trailing_space(s) <= s.len(),
    decreases s.len(),
{
    if s.len() > 0 {
        lemma_space_bounds(s.skip(1));
        lemma_space_bounds(s.drop_last());
    }
}

/// `s` without its leading white space.
pub open spec fn trim_start_spec(s: Seq<char>) -> Seq<char> {
    s.skip(leading_space(s) as int)
}

/// `s` without its leading and trailing white space.
pub open spec fn trim_spec(s: Seq<char>) -> Seq<char> {
    let t = trim_start_spec(s);
    t.take(t.len() - trailing_space(t))
}

fn trim_start(s: &str) -> (r: &str)
    ensures
        r@ == trim_start_spec(s@),
{
    let n = s.unicode_len();
    let mut i: usize = 0;
    proof {
        lemma_space_bounds(s@);
        assert(s@.skip(0) == s@);
    }
    while i < n && white_space(s.get_char(i))
        invariant
            n == s@.len(),
            0 <= i <= n,
            leading_space(s@) == i + leading_space(s@.skip(i as int)),
        decreases n - i,
    {
        assert(s@.skip(i as int).skip(1) == s@.skip(i + 1));
        i = i + 1;
    }
    proof {
        if i < n {
            assert(s@.skip(i as int)[0] == s@[i as int]);
        }
        assert(leading_space(s@.skip(i as int)) == 0);
    }
    s.substring_char(i, n)
}

fn trim(s: &str) -> (r: &str)
    ensures
        r@ == trim_spec(s@),
{
    let t = trim_start(s);
    let n = t.unicode_len();
    let mut k: usize = n;
    proof {
        lemma_space_bounds(t@);
        assert(t@.take(n as int) == t@);
    }
    while k > 0 && white_space(t.get_char(k - 1))
        invariant
            n == t@.len(),
            0 <= k <= n,
            trailing_space(t@) == (n - k) + trailing_space(t@.take(k as int)),
        decreases k,
    {
        assert(t@.take(k as int).drop_last() == t@.take(k - 1));
        assert(t@.take(k as int).last() == t@[k - 1]);
        k = k - 1;
    }
    proof {
        if k > 0 {
            assert(t@.take(k as int).last() == t@[k - 1]);
        }
        assert(trailing_space(t@.take(k as int)) == 0);
    }
    t.substring_char(0, k)
}

fn starts_with(s: &str, prefix: &str) -> (r: bool)
    ensures
        r == (prefix@.len() <= s@.len() && s@.take(prefix@.len() as int) == prefix@),
{
    let n = s.unicode_len();
    let m = prefix.unicode_len();
    if m > n {
        return false;
    }
    str_eq(s.substring_char(0, m), prefix)
}

/// The words of a command line as a POSIX shell splits them; `None` for a line that ends
/// inside a quote.
pub uninterp spec fn shell_split(line: Seq<char>) -> Option<Seq<Seq<char>>>;

/// Relies on `shell_words::split`: the result depends on the line alone, and its only
/// failure is `ParseError`, for a line that ends inside a quote.
#[verifier::external_body]
fn split_words(line: &str) -> (r: Option<Vec<String>>)
    ensures
        match r {
            Some(words) => shell_split(line@) == Some(views(words@)),
            None => shell_split(line@) is None,
        },
{
    shell_words::split(line).ok()
}

/// The prefixes that address the server's admin user in the admin room, in the order they
/// are tried.
pub open spec fn address_prefixes(user: Seq<char>, localpart: Seq<char>) -> Seq<Seq<char>> {
    seq![user + ":"@, user + " "@, localpart + ":"@, localpart + " "@]
}

/// Whether `line` begins with `prefix`.
pub open spec fn begins_with(line: Seq<char>, prefix: Seq<char>) -> bool {
    prefix.len() <= line.len() && line.take(prefix.len() as int) == prefix
}

/// The first of `prefixes` that `line` begins with.
pub open spec fn first_prefix(line: Seq<char>, prefixes: Seq<Seq<char>>) -> Option<Seq<char>>
    decreases prefixes.len(),
{
    if prefixes.len() == 0 {
        None
    } else if begins_with(line, prefixes[0]) {
        Some(prefixes[0])
    } else {
        first_prefix(line, prefixes.skip(1))
    }
}

/// The command line after the admin user's address is normalized to `<user>: `.
pub open spec fn addressed_line(line: Seq<char>, user: Seq<char>, localpart: Seq<char>) -> Seq<char> {
    if trim_spec(line) == user || trim_spec(line) == localpart {
        user + ": --help"@
    } else {
        match first_prefix(line, address_prefixes(user, localpart)) {
            Some(p) => user + ": "@ + trim_start_spec(line.skip(p.len() as int)),
            None => line,
        }
    }
}

/// The text shown for a line that the shell splitting refuses.
pub open spec fn split_error_spec() -> Seq<char> {
    "Failed to parse admin command: missing closing quote"@
}

fn addressed(line: &str, user: &str, localpart: &str) -> (r: String)
    ensures
        r@ == addressed_line(line@, user@, localpart@),
{
    let t = trim(line);
    if str_eq(t, user) || str_eq(t, localpart) {
        let mut out = String::from_str(user);
        out.append(": --help");
        return out;
    }
    let mut by_user_colon = String::from_str(user);
    by_user_colon.append(":");
    let mut by_user_space = String::from_str(user);
    by_user_space.append(" ");
    let mut by_local_colon = String::from_str(localpart);
    by_local_colon.append(":");
    let mut by_local_space = String::from_str(localpart);
    by_local_space.append(" ");
    let prefixes = vec![by_user_colon, by_user_space, by_local_colon, by_local_space];
    let ghost ps = address_prefixes(user@, localpart@);
    assert(views(prefixes@) =~= ps);
    assert(ps.skip(0) == ps);
    let mut i: usize = 0;
    while i < 4
        invariant
            0 <= i <= 4,
            prefixes@.len() == 4,
            views(prefixes@) == ps,
            first_prefix(line@, ps) == first_prefix(line@, ps.skip(i as int)),
            trim_spec(line@) != user@ && trim_spec(line@) != localpart@,
            ps == address_prefixes(user@, localpart@),
        decreases 4 - i,
    {
        let p = prefixes[i].as_str();
        assert(p@ == ps[i as int]);
        assert(ps.skip(i as int)[0] == ps[i as int]);
        if starts_with(line, p) {
            let rest = line.substring_char(p.unicode_len(), line.unicode_len());
            let mut out = String::from_str(user);
            out.append(": ");
            out.append(trim_start(rest));
            assert(line@.skip(ps[i as int].len() as int) == rest@);
            assert(out@ =~= user@ + ": "@ + trim_start_spec(rest@));
            return out;
        }
        assert(ps.skip(i as int).skip(1) == ps.skip(i + 1));
        i = i + 1;
    }
    String::from_str(line)
}

/// What parsing an admin-room message line gives, for the admin user `user` with local
/// part `localpart`.
pub open spec fn parse_command_spec(line: Seq<char>, user: Seq<char>, localpart: Seq<char>) -> Result<
    (Seq<char>, Seq<Seq<char>>),
    Seq<char>,
> {
    match shell_split(addressed_line(line, user, localpart)) {
        None => Err(split_error_spec()),
        Some(argv) => parse_spec(argv),
    }
}

/// Parses a line of the admin room into a command. A line that addresses the admin user
/// (`<user>:`, `<user> `, `<localpart>:` or `<localpart> `) has that address normalized; a
/// line that is only the address asks for help. The line is then split as a shell would.
pub fn parse_admin_command(command_line: &str, user: &str, localpart: &str) -> (r: Result<
    AdminCommand,
    String,
>)
    ensures
        match (r, parse_command_spec(command_line@, user@, localpart@)) {
            (Ok(c), Ok((name, args))) => c.name@ == name && views(c.args@) == args,
            (Err(text), Err(expected)) => text@ == expected,
            _ => false,
        },
{
    let line = addressed(command_line, user, localpart);
    match split_words(line.as_str()) {
        None => Err(String::from_str("Failed to parse admin command: missing closing quote")),
        Some(argv) => AdminCommand::try_parse_from(argv),
    }
}

} // verus!
