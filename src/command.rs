//! Command registry: which command claims a raw line, and what it answers.
use vstd::prelude::*;
use vstd::string::*;

verus! {

/// `c` is the letter `lower` in either case (`lower` is a lower-case ASCII letter).
pub open spec fn ascii_ci_eq(c: char, lower: char) -> bool {
    c == lower || ((lower as u32) >= 32 && (c as u32) == (lower as u32) - 32)
}

/// `s` begins with `name`, ignoring ASCII case.
pub open spec fn starts_with_ci(s: Seq<char>, name: Seq<char>) -> bool {
    &&& name.len() <= s.len()
    &&& forall|i: int| 0 <= i < name.len() ==> ascii_ci_eq(#[trigger] s[i], name[i])
}

pub open spec fn ping_name() -> Seq<char> {
    seq!['p', 'i', 'n', 'g']
}

pub open spec fn echo_name() -> Seq<char> {
    seq!['e', 'c', 'h', 'o']
}

/// Index of the first `'\n'` at or after `k`, or the length of `t` when none follows.
pub open spec fn line_end(t: Seq<char>, k: int) -> int
    decreases t.len() - k,
{
    if k < 0 || k >= t.len() {
        t.len() as int
    } else if t[k] == '\n' {
        k
    } else {
        line_end(t, k + 1)
    }
}

/// What the pattern `(?i)^echo(.*)` captures in `t`: the characters after a
/// leading `echo` (any case) up to the first line break.
pub open spec fn echo_capture(t: Seq<char>) -> Option<Seq<char>> {
    if starts_with_ci(t, echo_name()) {
        Some(t.subrange(4, line_end(t, 4)))
    } else {
        None
    }
}

/// Unicode's White_Space property.
pub open spec fn is_white_space(c: char) -> bool {
    let u = c as u32;
    ||| 0x9 <= u <= 0xd
    ||| u == 0x20
    ||| u == 0x85
    ||| u == 0xa0
    ||| u == 0x1680
    ||| 0x2000 <= u <= 0x200a
    ||| u == 0x2028
    ||| u == 0x2029
    ||| u == 0x202f
    ||| u == 0x205f
    ||| u == 0x3000
}

pub open spec fn trim_start(s: Seq<char>) -> Seq<char>
    decreases s.len(),
{
    if s.len() > 0 && is_white_space(s[0]) {
        trim_start(s.drop_first())
    } else {
        s
    }
}

pub open spec fn trim_end(s: Seq<char>) -> Seq<char>
    decreases s.len(),
{
    if s.len() > 0 && is_white_space(s.last()) {
        trim_end(s.drop_last())
    } else {
        s
    }
}

/// `s` without its leading and trailing white space.
pub open spec fn trimmed(s: Seq<char>) -> Seq<char> {
    trim_end(trim_start(s))
}

pub open spec fn ping_response() -> Seq<char> {
    seq!['+', 'P', 'O', 'N', 'G', '\t', '\n']
}

/// The echo command's answer: the trimmed capture and a line break.
pub open spec fn echo_response(t: Seq<char>) -> Seq<char> {
    match echo_capture(t) {
        Some(c) => trimmed(c) + seq!['\n'],
        None => Seq::empty(),
    }
}

/// The pattern that the echo command matches a raw line against.
pub const ECHO_PATTERN: &'static str = "(?i)^echo(.*)";

/// Relies on `regex::Regex::new` and `Regex::captures`: with the pattern
/// `(?i)^echo(.*)` a text matches exactly when it starts with `echo` in any
/// case (the simple case folds of `e`, `c`, `h`, `o` are ASCII only), and the
/// group is the rest up to the first `\n`, which `.` does not match.
#[verifier::external_body]
fn first_capture(pattern: &str, text: &str) -> (r: Option<String>)
    requires
        pattern@ == ECHO_PATTERN@,
    ensures
        r.is_some() == echo_capture(text@).is_some(),
        r.is_some() ==> r.unwrap()@ == echo_capture(text@).unwrap(),
{
    regex::Regex::new(pattern).unwrap().captures(text).map(|c| c[1].to_string())
}

fn white_space(c: char) -> (r: bool)
    ensures
        r == is_white_space(c),
{
    let u = c as u32;
    (0x9 <= u && u <= 0xd) || u == 0x20 || u == 0x85 || u == 0xa0 || u == 0x1680 || (0x2000 <= u
        && u <= 0x200a) || u == 0x2028 || u == 0x2029 || u == 0x202f || u == 0x205f || u == 0x3000
}

proof fn lemma_trim_start(s: Seq<char>, i: int)
    requires
        0 <= i <= s.len(),
        forall|j: int| 0 <= j < i ==> is_white_space(#[trigger] s[j]),
        i == s.len() || !is_white_space(s[i]),
    ensures
        trim_start(s) == s.subrange(i, s.len() as int),
    decreases i,
{
    if i == 0 {
        assert(s.subrange(0, s.len() as int) =~= s);
    } else {
        let t = s.drop_first();
        assert forall|j: int| 0 <= j < i - 1 implies is_white_space(#[trigger] t[j]) by {
            assert(t[j] == s[j + 1]);
        }
        lemma_trim_start(t, i - 1);
        assert(t.subrange(i - 1, t.len() as int) =~= s.subrange(i, s.len() as int));
    }
}

proof fn lemma_trim_end(t: Seq<char>, j: int)
    requires
        0 <= j <= t.len(),
        forall|k: int| j <= k < t.len() ==> is_white_space(#[trigger] t[k]),
        j == 0 || !is_white_space(t[j - 1]),
    ensures
        trim_end(t) == t.subrange(0, j),
    decreases t.len() - j,
{
    if j == t.len() {
        assert(t.subrange(0, j) =~= t);
    } else {
        let u = t.drop_last();
        assert forall|k: int| j <= k < u.len() implies is_white_space(#[trigger] u[k]) by {
            assert(u[k] == t[k]);
        }
        lemma_trim_end(u, j);
        assert(u.subrange(0, j) =~= t.subrange(0, j));
    }
}

/// `s` without its leading and trailing White_Space characters.
fn trim_text(s: &str) -> (r: &str)
    ensures
        r@ == trimmed(s@),
{
    let n = s.unicode_len();
    let mut i: usize = 0;
    while i < n && white_space(s.get_char(i))
        invariant
            n == s@.len(),
            i <= n,
            forall|j: int| 0 <= j < i ==> is_white_space(#[trigger] s@[j]),
        decreases n - i,
    {
        i = i + 1;
    }
    let mut e: usize = n;
    while e > i && white_space(s.get_char(e - 1))
        invariant
            n == s@.len(),
            i <= e <= n,
            forall|k: int| e <= k < n ==> is_white_space(#[trigger] s@[k]),
        decreases e - i,
    {
        e = e - 1;
    }
    proof {
        lemma_trim_start(s@, i as int);
        let t = s@.subrange(i as int, n as int);
        assert forall|k: int| (e - i) <= k < t.len() implies is_white_space(#[trigger] t[k]) by {
            assert(t[k] == s@[i + k]);
        }
        if e > i {
            assert(t[e - i - 1] == s@[e - 1]);
        }
        lemma_trim_end(t, (e - i) as int);
        assert(t.subrange(0, (e - i) as int) =~= s@.subrange(i as int, e as int));
    }
    s.substring_char(i, e)
}

/// Whether `s` begins with `name`, ignoring ASCII case.
fn has_prefix_ci(s: &str, name: &str) -> (r: bool)
    ensures
        r == starts_with_ci(s@, name@),
{
    let n = name.unicode_len();
    let m = s.unicode_len();
    if m < n {
        return false;
    }
    let mut i: usize = 0;
    while i < n
        invariant
            n == name@.len(),
            m == s@.len(),
            n <= m,
            i <= n,
            forall|j: int| 0 <= j < i ==> ascii_ci_eq(#[trigger] s@[j], name@[j]),
        decreases n - i,
    {
        let c = s.get_char(i);
        let l = name.get_char(i);
        if !(c == l || ((l as u32) >= 32 && (c as u32) == (l as u32) - 32)) {
            return false;
        }
        i = i + 1;
    }
    true
}

/// Answers `+PONG\t\n` to any line that starts with `ping`.
pub struct Ping {}

impl Ping {
    pub fn can_process(&self, raw_cmd: &str) -> (r: bool)
        ensures
            r == starts_with_ci(raw_cmd@, ping_name()),
    {
        proof {
            reveal_strlit("ping");
        }
        let r = has_prefix_ci(raw_cmd, "ping");
        assert("ping"@ =~= ping_name());
        r
    }

    pub fn run(&self, _raw_cmd: &str) -> (r: String)
        ensures
            r@ == ping_response(),
    {
        proof {
            reveal_strlit("+PONG\t\n");
        }
        let r = String::from_str("+PONG\t\n");
        assert(r@ =~= ping_response());
        r
    }
}

/// Answers the rest of a line that starts with `echo`, trimmed, and a line break.
pub struct Echo {}

impl Echo {
    pub fn can_process(&self, raw_cmd: &str) -> (r: bool)
        ensures
            r == starts_with_ci(raw_cmd@, echo_name()),
    {
        proof {
            reveal_strlit("echo");
        }
        let r = has_prefix_ci(raw_cmd, "echo");
        assert("echo"@ =~= echo_name());
        r
    }

    pub fn run(&self, raw_cmd: &str) -> (r: String)
        ensures
            r@ == echo_response(raw_cmd@),
    {
        proof {
            reveal_strlit("\n");
        }
        match first_capture(ECHO_PATTERN, raw_cmd) {
            Some(rest) => {
                let t = trim_text(rest.as_str());
                let r = t.to_owned().concat("\n");
                assert(r@ =~= echo_response(raw_cmd@));
                r
            },
            None => String::new(),
        }
    }
}

/// The registered commands, in the order in which they are consulted.
#[derive(Clone, Copy, Debug, PartialEq, Eq, Structural)]
pub enum CommandKind {
    Ping,
    Echo,
}

pub open spec fn registered() -> Seq<CommandKind> {
    seq![CommandKind::Ping, CommandKind::Echo]
}

pub open spec fn claims(kind: CommandKind, t: Seq<char>) -> bool {
    match kind {
        CommandKind::Ping => starts_with_ci(t, ping_name()),
        CommandKind::Echo => starts_with_ci(t, echo_name()),
    }
}

pub open spec fn answer(kind: CommandKind, t: Seq<char>) -> Seq<char> {
    match kind {
        CommandKind::Ping => ping_response(),
        CommandKind::Echo => echo_response(t),
    }
}

/// The first registered command that claims `t`, if any.
pub open spec fn selected(t: Seq<char>) -> Option<CommandKind> {
    if claims(CommandKind::Ping, t) {
        Some(CommandKind::Ping)
    } else if claims(CommandKind::Echo, t) {
        Some(CommandKind::Echo)
    } else {
        None
    }
}

impl CommandKind {
    pub fn can_process(&self, raw_cmd: &str) -> (r: bool)
        ensures
            r == claims(*self, raw_cmd@),
    {
        match self {
            CommandKind::Ping => Ping {}.can_process(raw_cmd),
            CommandKind::Echo => Echo {}.can_process(raw_cmd),
        }
    }

    /// The answer to `raw_cmd`: it depends on the line and the command alone.
    pub fn run(&self, raw_cmd: &str) -> (r: String)
        ensures
            r@ == answer(*self, raw_cmd@),
    {
        match self {
            CommandKind::Ping => Ping {}.run(raw_cmd),
            CommandKind::Echo => Echo {}.run(raw_cmd),
        }
    }
}

pub fn registered_commands() -> (r: Vec<CommandKind>)
    ensures
        r@ == registered(),
{
    let r = vec![CommandKind::Ping, CommandKind::Echo];
    assert(r@ =~= registered());
    r
}

/// The first registered command whose `can_process` accepts the line.
pub fn select_command(raw_cmd: &str) -> (r: Option<CommandKind>)
    ensures
        r == selected(raw_cmd@),
{
    let commands = registered_commands();
    let mut i: usize = 0;
    while i < commands.len()
        invariant
            commands@ == registered(),
            i <= commands@.len(),
            forall|j: int| 0 <= j < i ==> !claims(#[trigger] registered()[j], raw_cmd@),
        decreases commands@.len() - i,
    {
        if commands[i].can_process(raw_cmd) {
            return Some(commands[i]);
        }
        i = i + 1;
    }
    assert(!claims(registered()[0], raw_cmd@));
    assert(!claims(registered()[1], raw_cmd@));
    None
}

/// Dispatches a raw line and computes its answer; `None` when no command claims it.
pub fn get_and_run_cmd(raw_cmd: &str) -> (r: Option<String>)
    ensures
        r.is_some() == selected(raw_cmd@).is_some(),
        r.is_some() ==> r.unwrap()@ == answer(selected(raw_cmd@).unwrap(), raw_cmd@),
{
    match select_command(raw_cmd) {
        Some(kind) => Some(kind.run(raw_cmd)),
        None => None,
    }
}

} // verus!
