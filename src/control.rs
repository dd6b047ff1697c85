use vstd::prelude::*;

verus! {

/// A line received on the control channel, once read.
#[derive(Clone, Copy, Debug, PartialEq, Eq, Structural)]
pub enum Command {
    Show,
    Hide,
    Unknown,
}

/// What the caller must do after the controller has handled a command.
#[derive(Clone, Copy, Debug, PartialEq, Eq, Structural)]
pub enum Action {
    /// The overlay was hidden and is now shown: start one render loop.
    StartRenderLoop,
    /// The overlay was shown and is now hidden: the running loop stops at its next poll of the flag.
    StopRenderLoop,
    /// Nothing changed.
    Nothing,
}

/// Characters with the Unicode `White_Space` property.
pub open spec fn is_white_space(c: char) -> bool {
    let v = c as u32;
    ||| 0x9 <= v <= 0xD
    ||| v == 0x20
    ||| v == 0x85
    ||| v == 0xA0
    ||| v == 0x1680
    ||| 0x2000 <= v <= 0x200A
    ||| v == 0x2028
    ||| v == 0x2029
    ||| v == 0x202F
    ||| v == 0x205F
    ||| v == 0x3000
}

/// `s` without its leading white space.
pub open spec fn trim_start(s: Seq<char>) -> Seq<char>
    decreases s.len(),
{
    if s.len() > 0 && is_white_space(s[0]) {
        trim_start(s.drop_first())
    } else {
        s
    }
}

/// `s` without its trailing white space.
pub open spec fn trim_end(s: Seq<char>) -> Seq<char>
    decreases s.len(),
{
    if s.len() > 0 && is_white_space(s.last()) {
        trim_end(s.drop_last())
    } else {
        s
    }
}

/// `s` without white space at either end.
pub open spec fn trim(s: Seq<char>) -> Seq<char> {
    trim_end(trim_start(s))
}

/// The command that a received line stands for: exact and case-sensitive once trimmed.
pub open spec fn command_of(line: Seq<char>) -> Command {
    if trim(line) == seq!['s', 'h', 'o', 'w'] {
        Command::Show
    } else if trim(line) == seq!['h', 'i', 'd', 'e'] {
        Command::Hide
    } else {
        Command::Unknown
    }
}

fn is_white(c: char) -> (r: bool)
    ensures
        r == is_white_space(c),
{
    let v = c as u32;
    (0x9 <= v && v <= 0xD) || v == 0x20 || v == 0x85 || v == 0xA0 || v == 0x1680 || (0x2000 <= v
        && v <= 0x200A) || v == 0x2028 || v == 0x2029 || v == 0x202F || v == 0x205F || v == 0x3000
}

/// Whether characters `start..start + 4` of `line` spell `word`.
fn spells(line: &str, start: usize, end: usize, word: (char, char, char, char)) -> (r: bool)
    requires
        end == start + 4,
        end <= line@.len(),
    ensures
        r == (line@.subrange(start as int, start + 4) == seq![word.0, word.1, word.2, word.3]),
{
    let r = line.get_char(start) == word.0 && line.get_char(start + 1) == word.1
        && line.get_char(start + 2) == word.2 && line.get_char(start + 3) == word.3;
    let ghost part = line@.subrange(start as int, start + 4);
    let ghost w = seq![word.0, word.1, word.2, word.3];
    if r {
        assert(part =~= w);
    } else {
        assert(part != w) by {
            if part == w {
                assert(part[0] == w[0] && part[1] == w[1] && part[2] == w[2] && part[3] == w[3]);
            }
        }
    }
    r
}

/// Reads one line of the control channel as a command.
pub fn parse_command(line: &str) -> (c: Command)
    ensures
        c == command_of(line@),
{
    let n = line.unicode_len();
    let mut i: usize = 0;
    assert(line@.subrange(0, n as int) =~= line@);
    while i < n && is_white(line.get_char(i))
        invariant
            0 <= i <= n,
            n == line@.len(),
            trim_start(line@) == trim_start(line@.subrange(i as int, n as int)),
        decreases n - i,
    {
        assert(line@.subrange(i as int, n as int).drop_first() =~= line@.subrange(
            i + 1,
            n as int,
        ));
        i = i + 1;
    }
    assert(trim_start(line@.subrange(i as int, n as int)) == line@.subrange(i as int, n as int));
    let mut j: usize = n;
    while j > i && is_white(line.get_char(j - 1))
        invariant
            i <= j <= n,
            n == line@.len(),
            trim(line@) == trim_end(line@.subrange(i as int, j as int)),
        decreases j,
    {
        assert(line@.subrange(i as int, j as int).drop_last() =~= line@.subrange(
            i as int,
            j - 1,
        ));
        j = j - 1;
    }
    assert(trim(line@) == line@.subrange(i as int, j as int));
    if j - i == 4 && spells(line, i, j, ('s', 'h', 'o', 'w')) {
        Command::Show
    } else if j - i == 4 && spells(line, i, j, ('h', 'i', 'd', 'e')) {
        Command::Hide
    } else {
        proof {
            if j - i != 4 {
                assert(trim(line@).len() != seq!['s', 'h', 'o', 'w'].len());
                assert(trim(line@).len() != seq!['h', 'i', 'd', 'e'].len());
            }
        }
        Command::Unknown
    }
}

/// The process-wide "overlay shown" flag shared by the control thread and the render loop.
#[derive(Clone, Copy, Debug, PartialEq, Eq, Structural)]
pub struct Visibility {
    pub shown: bool,
}

impl Visibility {
    /// The flag and the action after `cmd`.
    pub open spec fn dispatch(self, cmd: Command) -> (Visibility, Action) {
        match cmd {
            Command::Show => if self.shown {
                (self, Action::Nothing)
            } else {
                (Visibility { shown: true }, Action::StartRenderLoop)
            },
            Command::Hide => if self.shown {
                (Visibility { shown: false }, Action::StopRenderLoop)
            } else {
                (self, Action::Nothing)
            },
            Command::Unknown => (self, Action::Nothing),
        }
    }

    /// The flag at process start: hidden.
    pub fn new() -> (v: Visibility)
        ensures
            !v.shown,
    {
        Visibility { shown: false }
    }

    pub fn is_shown(&self) -> (r: bool)
        ensures
            r == self.shown,
    {
        self.shown
    }

    /// Shows the overlay; only a change from hidden asks for a render loop.
    pub fn show_overlay(&mut self) -> (a: Action)
        ensures
            (*final(self), a) == old(self).dispatch(Command::Show),
            final(self).shown,
            a == Action::StartRenderLoop <==> !old(self).shown,
    {
        if self.shown {
            Action::Nothing
        } else {
            self.shown = true;
            Action::StartRenderLoop
        }
    }

    /// Hides the overlay; when already hidden nothing changes.
    pub fn hide_overlay(&mut self) -> (a: Action)
        ensures
            (*final(self), a) == old(self).dispatch(Command::Hide),
            !final(self).shown,
            a == Action::StopRenderLoop <==> old(self).shown,
            a != Action::StartRenderLoop,
    {
        if self.shown {
            self.shown = false;
            Action::StopRenderLoop
        } else {
            Action::Nothing
        }
    }

    /// Applies one command.
    pub fn handle(&mut self, cmd: Command) -> (a: Action)
        ensures
            (*final(self), a) == old(self).dispatch(cmd),
    {
        match cmd {
            Command::Show => self.show_overlay(),
            Command::Hide => self.hide_overlay(),
            Command::Unknown => Action::Nothing,
        }
    }

    /// Reads and applies one line of the control channel.
    pub fn handle_line(&mut self, line: &str) -> (a: Action)
        ensures
            (*final(self), a) == old(self).dispatch(command_of(line@)),
    {
        let cmd = parse_command(line);
        self.handle(cmd)
    }
}

/// Two `show` commands in a row start at most one render loop, and exactly one
/// when the overlay was hidden; a second `hide` in a row changes nothing.
pub proof fn lemma_show_hide_idempotent(v: Visibility)
    ensures
        ({
            let (v1, a1) = v.dispatch(Command::Show);
            let (v2, a2) = v1.dispatch(Command::Show);
            &&& v2 == v1
            &&& v2.shown
            &&& a2 == Action::Nothing
            &&& (a1 == Action::StartRenderLoop <==> !v.shown)
        }),
        ({
            let (v1, a1) = v.dispatch(Command::Hide);
            let (v2, a2) = v1.dispatch(Command::Hide);
            &&& v2 == v1
            &&& !v2.shown
            &&& a2 == Action::Nothing
        }),
{
}

/// A line that is neither command leaves the flag as it was and asks for nothing.
pub proof fn lemma_unknown_inert(v: Visibility, line: Seq<char>)
    requires
        command_of(line) == Command::Unknown,
    ensures
        v.dispatch(command_of(line)) == (v, Action::Nothing),
{
}

} // verus!
