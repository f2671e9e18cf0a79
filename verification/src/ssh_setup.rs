//! SSH setup: the command line that starts the helper on the remote host, the line in which the
//! helper gives the credentials, and tunnel specifications.
use vstd::prelude::*;

use crate::crypto::{CryptoHandler, KEYBYTES};
use crate::decimal::{decimal, parse_port, port_value, push_unsigned, unsigned_text};
use crate::socket::{base64_encode, base64_text, is_base64};
use crate::text::{
    first_index, has_prefix, law_prefix_is_in_front, law_split_finds_the_last_piece,
    law_text_is_cut_at_the_first_separator, option_view, split, split_once, split_once_spec,
    split_spec, starts_with, views,
};

verus! {

/// Holds the options of an SSH connection
#[derive(Debug)]
pub struct SshSetupHandler {
    /// SSH host
    pub host: String,
    /// SSH user
    pub user: Option<String>,
    /// SSH port
    pub port: u16,
    /// Jump host (ProxyJump)
    pub jumphost: Option<String>,
    /// Additional SSH options
    pub ssh_options: Vec<String>,
    /// Identity file
    pub identity_file: Option<String>,
}

/// What a [`SshSetupHandler`] holds.
pub struct SshSetupView {
    pub host: Seq<char>,
    pub user: Option<Seq<char>>,
    pub port: u16,
    pub jumphost: Option<Seq<char>>,
    pub ssh_options: Seq<Seq<char>>,
    pub identity_file: Option<Seq<char>>,
}

impl View for SshSetupHandler {
    type V = SshSetupView;

    open spec fn view(&self) -> SshSetupView {
        SshSetupView {
            host: self.host@,
            user: option_view(self.user),
            port: self.port,
            jumphost: option_view(self.jumphost),
            ssh_options: views(self.ssh_options@),
            identity_file: option_view(self.identity_file),
        }
    }
}

/// A command to run: the program and its arguments
#[derive(Debug)]
pub struct SshCommand {
    /// Name of the program
    pub program: String,
    /// Arguments in order
    pub arguments: Vec<String>,
}

/// The credentials of a connection
#[derive(Debug)]
pub struct SshCredentials {
    /// Connection ID
    pub id: String,
    /// Connection passkey
    pub key: String,
}

/// A flag with its value, if there is one.
pub open spec fn flag_arguments(flag: Seq<char>, value: Option<Seq<char>>) -> Seq<Seq<char>> {
    match value {
        Some(v) => seq![flag, v],
        None => Seq::empty(),
    }
}

/// Each option, with the flag for options before it.
pub open spec fn option_arguments(options: Seq<Seq<char>>) -> Seq<Seq<char>>
    decreases options.len(),
{
    if options.len() == 0 {
        Seq::empty()
    } else {
        option_arguments(options.drop_last()) + seq!["-o"@, options.last()]
    }
}

/// The command that the remote host is to run.
pub open spec fn helper_command(et_port: u16, passkey: Seq<char>) -> Seq<char> {
    "etterminal -c "@ + passkey + " -p "@ + decimal(et_port as nat)
}

/// The arguments of the SSH program: user, port, jump host, identity file, options, host, and
/// the command that the host is to run.
pub open spec fn ssh_arguments(setup: SshSetupView, et_port: u16, passkey: Seq<char>) -> Seq<
    Seq<char>,
> {
    flag_arguments("-l"@, setup.user) + seq!["-p"@, decimal(setup.port as nat)] + flag_arguments(
        "-J"@,
        setup.jumphost,
    ) + flag_arguments("-i"@, setup.identity_file) + option_arguments(setup.ssh_options)
        + seq![setup.host, helper_command(et_port, passkey)]
}

fn push_flag(arguments: &mut Vec<String>, flag: &str, value: &Option<String>)
    ensures
        views(final(arguments)@) == views(old(arguments)@) + flag_arguments(
            flag@,
            option_view(*value),
        ),
{
    let ghost before = views(arguments@);
    if let Some(v) = value {
        arguments.push(flag.to_owned());
        arguments.push(v.clone());
        assert(views(arguments@) =~= before + seq![flag@, v@]);
    } else {
        assert(before + Seq::empty() =~= before);
    }
}

impl SshSetupHandler {
    /// Creates a new SSH setup handler
    pub fn new(host: &str) -> (r: SshSetupHandler)
        ensures
            r@ == (SshSetupView {
                host: host@,
                user: None,
                port: 22,
                jumphost: None,
                ssh_options: Seq::empty(),
                identity_file: None,
            }),
    {
        let r = SshSetupHandler {
            host: host.to_owned(),
            user: None,
            port: 22,
            jumphost: None,
            ssh_options: Vec::new(),
            identity_file: None,
        };
        assert(r@.ssh_options =~= Seq::<Seq<char>>::empty());
        r
    }

    /// Sets the SSH user
    pub fn user(self, user: &str) -> (r: SshSetupHandler)
        ensures
            r@ == (SshSetupView { user: Some(user@), ..self@ }),
    {
        let mut setup = self;
        setup.user = Some(user.to_owned());
        setup
    }

    /// Sets the SSH port
    pub fn port(self, port: u16) -> (r: SshSetupHandler)
        ensures
            r@ == (SshSetupView { port, ..self@ }),
    {
        let mut setup = self;
        setup.port = port;
        setup
    }

    /// Sets the jump host
    pub fn jumphost(self, jumphost: &str) -> (r: SshSetupHandler)
        ensures
            r@ == (SshSetupView { jumphost: Some(jumphost@), ..self@ }),
    {
        let mut setup = self;
        setup.jumphost = Some(jumphost.to_owned());
        setup
    }

    /// Adds an SSH option
    pub fn option(self, option: &str) -> (r: SshSetupHandler)
        ensures
            r@ == (SshSetupView { ssh_options: self@.ssh_options.push(option@), ..self@ }),
    {
        let mut setup = self;
        setup.ssh_options.push(option.to_owned());
        assert(setup@.ssh_options =~= self@.ssh_options.push(option@));
        setup
    }

    /// Sets the identity file
    pub fn identity_file(self, path: &str) -> (r: SshSetupHandler)
        ensures
            r@ == (SshSetupView { identity_file: Some(path@), ..self@ }),
    {
        let mut setup = self;
        setup.identity_file = Some(path.to_owned());
        setup
    }

    /// Builds the SSH command
    pub fn build_ssh_command(&self, et_port: u16, passkey: &str) -> (r: SshCommand)
        ensures
            r.program@ == "ssh"@,
            views(r.arguments@) == ssh_arguments(self@, et_port, passkey@),
    {
        let mut arguments: Vec<String> = Vec::new();
        assert(views(arguments@) =~= Seq::<Seq<char>>::empty());
        push_flag(&mut arguments, "-l", &self.user);
        let ghost with_user = views(arguments@);
        assert(with_user =~= flag_arguments("-l"@, self@.user));
        arguments.push("-p".to_owned());
        arguments.push(unsigned_text(self.port as u64));
        assert(views(arguments@) =~= with_user + seq!["-p"@, decimal(self.port as nat)]);
        push_flag(&mut arguments, "-J", &self.jumphost);
        push_flag(&mut arguments, "-i", &self.identity_file);
        let ghost before_options = views(arguments@);
        let mut i: usize = 0;
        assert(self@.ssh_options.take(0) =~= Seq::<Seq<char>>::empty());
        assert(before_options + Seq::empty() =~= before_options);
        while i < self.ssh_options.len()
            invariant
                i <= self.ssh_options@.len(),
                views(arguments@) == before_options + option_arguments(
                    self@.ssh_options.take(i as int),
                ),
            decreases self.ssh_options@.len() - i,
        {
            let ghost so_far = views(arguments@);
            let ghost longer = self@.ssh_options.take(i + 1);
            arguments.push("-o".to_owned());
            arguments.push(self.ssh_options[i].clone());
            proof {
                assert(longer.drop_last() =~= self@.ssh_options.take(i as int));
                assert(views(arguments@) =~= so_far + seq!["-o"@, longer.last()]);
                assert(views(arguments@) =~= before_options + option_arguments(longer));
            }
            i = i + 1;
        }
        assert(self@.ssh_options.take(i as int) =~= self@.ssh_options);
        let ghost before_host = views(arguments@);
        arguments.push(self.host.clone());
        let mut command = "etterminal -c ".to_owned();
        command.append(passkey);
        command.append(" -p ");
        push_unsigned(&mut command, et_port as u64);
        arguments.push(command);
        assert(views(arguments@) =~= before_host + seq![
            self@.host,
            helper_command(et_port, passkey@),
        ]);
        SshCommand { program: "ssh".to_owned(), arguments }
    }
}

/// What a line in which the helper gives credentials starts with
pub const CREDENTIALS_PREFIX: &'static str = "IDPASSKEY:";

/// The id and the passkey that a line of the helper gives: the text after the first colon of a
/// line that starts with the prefix, cut at its first slash.
pub open spec fn credentials_of(line: Seq<char>) -> Option<(Seq<char>, Seq<char>)> {
    if has_prefix(line, CREDENTIALS_PREFIX@) {
        match split_once_spec(line, ':') {
            Some((_, rest)) => split_once_spec(rest, '/'),
            None => None,
        }
    } else {
        None
    }
}

/// Reads the credentials from a line of the helper's output
pub fn parse_credentials(line: &str) -> (r: Option<SshCredentials>)
    ensures
        match (r, credentials_of(line@)) {
            (Some(credentials), Some(expected)) => credentials.id@ == expected.0
                && credentials.key@ == expected.1,
            (None, None) => true,
            _ => false,
        },
{
    if !starts_with(line, CREDENTIALS_PREFIX) {
        return None;
    }
    match split_once(line, ':') {
        None => None,
        Some((_, rest)) => match split_once(rest, '/') {
            None => None,
            Some((id, key)) => Some(SshCredentials { id: id.to_owned(), key: key.to_owned() }),
        },
    }
}

/// What follows from a line of the helper's output, or from its end
#[derive(Debug)]
pub enum SshRun {
    /// The next line is to be read
    ReadLine,
    /// The line gives credentials
    Found(SshCredentials),
    /// The output has ended without credentials, with a text that says so
    Failed(String),
}

impl SshSetupHandler {
    /// Looks for the credentials in the helper's output: `line` is its next line, or nothing
    /// where it has ended
    pub fn run(line: Option<&str>) -> (r: SshRun)
        ensures
            match (line, r) {
                (Some(line), SshRun::Found(credentials)) => credentials_of(line@) == Some(
                    (credentials.id@, credentials.key@),
                ),
                (Some(line), SshRun::ReadLine) => credentials_of(line@) is None,
                (None, SshRun::Failed(text)) => text@
                    == "Failed to parse connection info from SSH"@,
                _ => false,
            },
    {
        match line {
            Some(line) => match parse_credentials(line) {
                Some(credentials) => SshRun::Found(credentials),
                None => SshRun::ReadLine,
            },
            None => SshRun::Failed("Failed to parse connection info from SSH".to_owned()),
        }
    }
}

/// Writes the line in which the helper gives its credentials
pub fn credentials_line(id: &str, passkey: &str) -> (r: String)
    ensures
        r@ == CREDENTIALS_PREFIX@ + id@ + "/"@ + passkey@,
{
    let mut line = CREDENTIALS_PREFIX.to_owned();
    line.append(id);
    line.append("/");
    line.append(passkey);
    line
}

proof fn lemma_first_index_is(s: Seq<char>, sep: char, i: int)
    requires
        0 <= i < s.len(),
        s[i] == sep,
        forall|j: int| 0 <= j < i ==> s[j] != sep,
    ensures
        first_index(s, sep) == i,
    decreases i,
{
    if i > 0 {
        assert forall|j: int| 0 <= j < i - 1 implies s.skip(1)[j] != sep by {
            assert(s.skip(1)[j] == s[j + 1]);
        }
        lemma_first_index_is(s.skip(1), sep, i - 1);
    }
}

/// The client reads from the helper's line the credentials that the helper wrote, whatever the
/// passkey, as long as the id holds no slash.
pub proof fn law_credentials_round_trip(id: Seq<char>, passkey: Seq<char>)
    requires
        forall|i: int| 0 <= i < id.len() ==> id[i] != '/',
    ensures
        credentials_of(CREDENTIALS_PREFIX@ + id + "/"@ + passkey) == Some((id, passkey)),
{
    reveal_strlit("IDPASSKEY:");
    reveal_strlit("/");
    let prefix = CREDENTIALS_PREFIX@;
    let line = prefix + id + "/"@ + passkey;
    assert(line.take(prefix.len() as int) =~= prefix);
    lemma_first_index_is(line, ':', 9);
    let rest = line.skip(10);
    assert(rest =~= id + "/"@ + passkey);
    lemma_first_index_is(rest, '/', id.len() as int);
    assert(rest.take(id.len() as int) =~= id);
    assert(rest.skip(id.len() as int + 1) =~= passkey);
}

/// Whether a character can stand in the text of a UUID.
pub open spec fn is_uuid_char(c: char) -> bool {
    '0' <= c <= '9' || 'a' <= c <= 'f' || c == '-'
}

/// Calls `uuid::Uuid::new_v4`, which draws a UUID at random, and writes it as text. Claimed is
/// only that the text has 36 characters, each a digit, a letter from `a` to `f` or a hyphen.
#[verifier::external_body]
fn uuid_text() -> (text: String)
    ensures
        text@.len() == 36,
        forall|i: int| 0 <= i < text@.len() ==> is_uuid_char(#[trigger] text@[i]),
{
    uuid::Uuid::new_v4().to_string()
}

/// Whether a text is the base64 text of some key.
pub open spec fn is_passkey(text: Seq<char>) -> bool {
    exists|key: Seq<u8>| key.len() == KEYBYTES && text == #[trigger] base64_text(key)
}

/// Makes a passkey: a random key, written in base64
pub fn new_passkey() -> (r: String)
    ensures
        is_passkey(r@),
        is_base64(r@),
        r@.len() == 44,
{
    let key = CryptoHandler::generate_key();
    base64_encode(key.as_slice())
}

/// Makes credentials: a random id and a random passkey
///
/// A client that reads the line in which they are given gets them back.
pub fn new_credentials() -> (r: SshCredentials)
    ensures
        is_passkey(r.key@),
        is_base64(r.key@),
        r.key@.len() == 44,
        r.id@.len() == 36,
        forall|i: int| 0 <= i < r.id@.len() ==> is_uuid_char(#[trigger] r.id@[i]),
        credentials_of(CREDENTIALS_PREFIX@ + r.id@ + "/"@ + r.key@) == Some((r.id@, r.key@)),
{
    let id = uuid_text();
    let key = new_passkey();
    proof {
        law_credentials_round_trip(id@, key@);
    }
    SshCredentials { id, key }
}

/// The host that stands where a tunnel specification names none
pub const LOOPBACK: &'static str = "127.0.0.1";

/// The local host and port and the remote host and port that a tunnel specification names. Two
/// fields are the ports; of three, the first is a port and the second a remote host, or else the
/// first is a local host and the second a port; four name all.
pub open spec fn tunnel_of(spec_text: Seq<char>) -> Option<(Seq<char>, u16, Seq<char>, u16)> {
    let parts = split_spec(spec_text, ':');
    if parts.len() == 2 {
        match (port_value(parts[0]), port_value(parts[1])) {
            (Some(local), Some(remote)) => Some((LOOPBACK@, local, LOOPBACK@, remote)),
            _ => None,
        }
    } else if parts.len() == 3 {
        match (port_value(parts[0]), port_value(parts[1]), port_value(parts[2])) {
            (Some(local), _, Some(remote)) => Some((LOOPBACK@, local, parts[1], remote)),
            (None, Some(local), Some(remote)) => Some((parts[0], local, LOOPBACK@, remote)),
            _ => None,
        }
    } else if parts.len() == 4 {
        match (port_value(parts[1]), port_value(parts[3])) {
            (Some(local), Some(remote)) => Some((parts[0], local, parts[2], remote)),
            _ => None,
        }
    } else {
        None
    }
}

/// The view of a parsed tunnel specification.
pub open spec fn tunnel_view(r: Option<(String, u16, String, u16)>) -> Option<
    (Seq<char>, u16, Seq<char>, u16),
> {
    match r {
        Some((local_host, local_port, remote_host, remote_port)) => Some(
            (local_host@, local_port, remote_host@, remote_port),
        ),
        None => None,
    }
}

/// Parse tunnel specification (e.g., "8080:localhost:80" or "8000:9000")
pub fn parse_tunnel_spec(spec_text: &str) -> (r: Option<(String, u16, String, u16)>)
    ensures
        tunnel_view(r) == tunnel_of(spec_text@),
{
    let parts = split(spec_text, ':');
    match parts.len() {
        // "localport:remoteport" format
        2 => {
            let local_port = parse_port(parts[0]);
            let remote_port = parse_port(parts[1]);
            match (local_port, remote_port) {
                (Some(local_port), Some(remote_port)) => Some(
                    (LOOPBACK.to_owned(), local_port, LOOPBACK.to_owned(), remote_port),
                ),
                _ => None,
            }
        },
        // "localport:remotehost:remoteport" or "localhost:localport:remoteport"
        3 => {
            let remote_port = match parse_port(parts[2]) {
                Some(port) => port,
                None => {
                    return None;
                },
            };
            match parse_port(parts[0]) {
                Some(local_port) => Some(
                    (LOOPBACK.to_owned(), local_port, parts[1].to_owned(), remote_port),
                ),
                None => match parse_port(parts[1]) {
                    Some(local_port) => Some(
                        (parts[0].to_owned(), local_port, LOOPBACK.to_owned(), remote_port),
                    ),
                    None => None,
                },
            }
        },
        // "localhost:localport:remotehost:remoteport"
        4 => {
            let local_port = parse_port(parts[1]);
            let remote_port = parse_port(parts[3]);
            match (local_port, remote_port) {
                (Some(local_port), Some(remote_port)) => Some(
                    (parts[0].to_owned(), local_port, parts[2].to_owned(), remote_port),
                ),
                _ => None,
            }
        },
        _ => None,
    }
}

/// The command line of the SSH program names the user, the port, the jump host, the identity file,
/// each option behind its flag in the order in which they were added, and then the host and the
/// command that it is to run; what is not set is not named.
pub proof fn law_command_line_names_every_setting(
    setup: SshSetupView,
    et_port: u16,
    passkey: Seq<char>,
)
    ensures
        ({
            let arguments = ssh_arguments(setup, et_port, passkey);
            let user: int = if setup.user is Some { 2 } else { 0 };
            let jump: int = if setup.jumphost is Some { 2 } else { 0 };
            let identity: int = if setup.identity_file is Some { 2 } else { 0 };
            let options = user + 2 + jump + identity;
            let host = options + 2 * setup.ssh_options.len();
            &&& arguments.len() == host + 2
            &&& setup.user is Some ==> arguments[0] == "-l"@ && arguments[1] == setup.user->0
            &&& arguments[user] == "-p"@ && arguments[user + 1] == decimal(setup.port as nat)
            &&& setup.jumphost is Some ==> arguments[user + 2] == "-J"@ && arguments[user + 3]
                == setup.jumphost->0
            &&& setup.identity_file is Some ==> arguments[user + 2 + jump] == "-i"@
                && arguments[user + 2 + jump + 1] == setup.identity_file->0
            &&& forall|i: int|
                0 <= i < setup.ssh_options.len() ==> arguments.subrange(
                    options + 2 * i,
                    options + 2 * i + 2,
                ) == seq!["-o"@, #[trigger] setup.ssh_options[i]]
            &&& arguments[host] == setup.host
            &&& arguments[host + 1] == "etterminal -c "@ + passkey + " -p "@ + decimal(
                et_port as nat,
            )
        }),
{
    lemma_options_in_order(setup.ssh_options);
    let arguments = ssh_arguments(setup, et_port, passkey);
    let user: int = if setup.user is Some { 2 } else { 0 };
    let jump: int = if setup.jumphost is Some { 2 } else { 0 };
    let identity: int = if setup.identity_file is Some { 2 } else { 0 };
    let options = user + 2 + jump + identity;
    assert forall|i: int| 0 <= i < setup.ssh_options.len() implies arguments.subrange(
        options + 2 * i,
        options + 2 * i + 2,
    ) == seq!["-o"@, #[trigger] setup.ssh_options[i]] by {
        assert(arguments.subrange(options + 2 * i, options + 2 * i + 2) =~= option_arguments(
            setup.ssh_options,
        ).subrange(2 * i, 2 * i + 2));
    }
}

proof fn lemma_options_in_order(options: Seq<Seq<char>>)
    ensures
        option_arguments(options).len() == 2 * options.len(),
        forall|i: int|
            0 <= i < options.len() ==> option_arguments(options).subrange(2 * i, 2 * i + 2)
                == seq!["-o"@, #[trigger] options[i]],
    decreases options.len(),
{
    if options.len() > 0 {
        let before = options.drop_last();
        lemma_options_in_order(before);
        assert forall|i: int| 0 <= i < options.len() implies option_arguments(options).subrange(
            2 * i,
            2 * i + 2,
        ) == seq!["-o"@, #[trigger] options[i]] by {
            if i < before.len() {
                assert(before[i] == options[i]);
                assert(option_arguments(options).subrange(2 * i, 2 * i + 2) =~= option_arguments(
                    before,
                ).subrange(2 * i, 2 * i + 2));
            } else {
                assert(option_arguments(options).subrange(2 * i, 2 * i + 2) =~= seq![
                    "-o"@,
                    options[i],
                ]);
            }
        }
    }
}

/// A line that does not start with the prefix gives no credentials, and neither does one without a
/// slash behind it.
pub proof fn law_other_lines_give_no_credentials(line: Seq<char>)
    ensures
        credentials_of(line) is Some ==> line.len() > 10 && line.take(10) == "IDPASSKEY:"@,
        credentials_of(line) matches Some((id, passkey)) ==> line == "IDPASSKEY:"@ + id + "/"@
            + passkey && !id.contains('/'),
{
    reveal_strlit("IDPASSKEY:");
    reveal_strlit("/");
    if credentials_of(line) is Some {
        law_prefix_is_in_front(line, CREDENTIALS_PREFIX@, Seq::empty());
        assert forall|j: int| 0 <= j < 9 implies line[j] != ':' by {
            assert(line[j] == line.take(10)[j]);
        }
        assert(line[9] == line.take(10)[9]);
        lemma_first_index_is(line, ':', 9);
        let rest = line.skip(10);
        law_text_is_cut_at_the_first_separator(rest, '/');
        let (id, passkey) = credentials_of(line)->0;
        assert(line =~= "IDPASSKEY:"@ + rest);
        assert(line =~= "IDPASSKEY:"@ + id + "/"@ + passkey);
    }
}

/// What a tunnel specification of two, three or four fields stands for, whatever the fields are.
pub proof fn law_tunnel_names_its_ends(
    a: Seq<char>,
    b: Seq<char>,
    c: Seq<char>,
    d: Seq<char>,
)
    requires
        !a.contains(':'),
        !b.contains(':'),
        !c.contains(':'),
        !d.contains(':'),
    ensures
        tunnel_of(a) is None,
        tunnel_of(a + seq![':'] + b) == if port_value(a) is Some && port_value(b) is Some {
            Some(("127.0.0.1"@, port_value(a)->0, "127.0.0.1"@, port_value(b)->0))
        } else {
            None
        },
        tunnel_of(a + seq![':'] + b + seq![':'] + c) == if port_value(c) is None {
            None
        } else if port_value(a) is Some {
            Some(("127.0.0.1"@, port_value(a)->0, b, port_value(c)->0))
        } else if port_value(b) is Some {
            Some((a, port_value(b)->0, "127.0.0.1"@, port_value(c)->0))
        } else {
            None
        },
        tunnel_of(a + seq![':'] + b + seq![':'] + c + seq![':'] + d) == if port_value(b) is Some
            && port_value(d) is Some {
            Some((a, port_value(b)->0, c, port_value(d)->0))
        } else {
            None
        },
{
    law_split_finds_the_last_piece(Seq::empty(), a, ':');
    law_split_finds_the_last_piece(a, b, ':');
    law_split_finds_the_last_piece(a + seq![':'] + b, c, ':');
    law_split_finds_the_last_piece(a + seq![':'] + b + seq![':'] + c, d, ':');
}

} // verus!
