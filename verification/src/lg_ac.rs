//! Modes, fan modes and the air conditioner's state.

use vstd::prelude::*;

use crate::text::{lemma_split_on_no_sep, lemma_split_on_prefix, split, split_on, str_eq};

verus! {

/// The operating mode of the air conditioner.
#[derive(PartialEq, Eq, Structural, Debug, Copy, Clone)]
pub enum Mode {
    Off,
    Fan,
    AI,
    AC,
    Dehum,
    Heat,
}

/// The text that names a mode.
pub open spec fn mode_text(m: Mode) -> Seq<char> {
    match m {
        Mode::Off => seq!['O', 'F', 'F'],
        Mode::Fan => seq!['F', 'A', 'N'],
        Mode::AI => seq!['A', 'I'],
        Mode::AC => seq!['A', 'C'],
        Mode::Dehum => seq!['D', 'E', 'H', 'U', 'M'],
        Mode::Heat => seq!['H', 'E', 'A', 'T'],
    }
}

/// The mode that a text names, if any.
pub open spec fn mode_of_text(s: Seq<char>) -> Option<Mode> {
    if s == mode_text(Mode::Off) {
        Some(Mode::Off)
    } else if s == mode_text(Mode::Fan) {
        Some(Mode::Fan)
    } else if s == mode_text(Mode::AI) {
        Some(Mode::AI)
    } else if s == mode_text(Mode::AC) {
        Some(Mode::AC)
    } else if s == mode_text(Mode::Dehum) {
        Some(Mode::Dehum)
    } else if s == mode_text(Mode::Heat) {
        Some(Mode::Heat)
    } else {
        None
    }
}

impl Mode {
    /// The mode's name, as `OFF`, `FAN`, `AI`, `AC`, `DEHUM` or `HEAT`.
    pub fn to_string(&self) -> (r: String)
        ensures
            r@ == mode_text(*self),
    {
        match self {
            Mode::Off => {
                proof { reveal_strlit("OFF"); }
                String::from_str("OFF")
            },
            Mode::Fan => {
                proof { reveal_strlit("FAN"); }
                String::from_str("FAN")
            },
            Mode::AI => {
                proof { reveal_strlit("AI"); }
                String::from_str("AI")
            },
            Mode::AC => {
                proof { reveal_strlit("AC"); }
                String::from_str("AC")
            },
            Mode::Dehum => {
                proof { reveal_strlit("DEHUM"); }
                String::from_str("DEHUM")
            },
            Mode::Heat => {
                proof { reveal_strlit("HEAT"); }
                String::from_str("HEAT")
            },
        }
    }

    /// Reads a mode from its name; any other text is refused.
    pub fn from_str(mode: &str) -> (r: Result<Mode, ()>)
        ensures
            r == (match mode_of_text(mode@) {
                Some(m) => Ok(m),
                None => Err(()),
            }),
    {
        proof {
            reveal_strlit("OFF");
            reveal_strlit("FAN");
            reveal_strlit("AI");
            reveal_strlit("AC");
            reveal_strlit("DEHUM");
            reveal_strlit("HEAT");
            assert("OFF"@ =~= mode_text(Mode::Off));
            assert("FAN"@ =~= mode_text(Mode::Fan));
            assert("AI"@ =~= mode_text(Mode::AI));
            assert("AC"@ =~= mode_text(Mode::AC));
            assert("DEHUM"@ =~= mode_text(Mode::Dehum));
            assert("HEAT"@ =~= mode_text(Mode::Heat));
        }
        if str_eq(mode, "OFF") {
            Ok(Mode::Off)
        } else if str_eq(mode, "FAN") {
            Ok(Mode::Fan)
        } else if str_eq(mode, "AI") {
            Ok(Mode::AI)
        } else if str_eq(mode, "AC") {
            Ok(Mode::AC)
        } else if str_eq(mode, "DEHUM") {
            Ok(Mode::Dehum)
        } else if str_eq(mode, "HEAT") {
            Ok(Mode::Heat)
        } else {
            Err(())
        }
    }
}

/// The fan mode of the air conditioner.
#[derive(PartialEq, Eq, Structural, Debug, Copy, Clone)]
pub enum FanMode {
    Low,
    Medium,
    High,
    Chaos,
}

/// The text that names a fan mode.
pub open spec fn fan_mode_text(m: FanMode) -> Seq<char> {
    match m {
        FanMode::Low => seq!['L', 'O', 'W'],
        FanMode::Medium => seq!['M', 'E', 'D', 'I', 'U', 'M'],
        FanMode::High => seq!['H', 'I', 'G', 'H'],
        FanMode::Chaos => seq!['C', 'H', 'A', 'O', 'S'],
    }
}

/// The fan mode that a text names, if any.
pub open spec fn fan_mode_of_text(s: Seq<char>) -> Option<FanMode> {
    if s == fan_mode_text(FanMode::Low) {
        Some(FanMode::Low)
    } else if s == fan_mode_text(FanMode::Medium) {
        Some(FanMode::Medium)
    } else if s == fan_mode_text(FanMode::High) {
        Some(FanMode::High)
    } else if s == fan_mode_text(FanMode::Chaos) {
        Some(FanMode::Chaos)
    } else {
        None
    }
}

impl FanMode {
    /// Reads a fan mode from its name; any other text is refused.
    pub fn from_str(mode: &str) -> (r: Result<FanMode, ()>)
        ensures
            r == (match fan_mode_of_text(mode@) {
                Some(m) => Ok(m),
                None => Err(()),
            }),
    {
        proof {
            reveal_strlit("LOW");
            reveal_strlit("MEDIUM");
            reveal_strlit("HIGH");
            reveal_strlit("CHAOS");
            assert("LOW"@ =~= fan_mode_text(FanMode::Low));
            assert("MEDIUM"@ =~= fan_mode_text(FanMode::Medium));
            assert("HIGH"@ =~= fan_mode_text(FanMode::High));
            assert("CHAOS"@ =~= fan_mode_text(FanMode::Chaos));
        }
        if str_eq(mode, "LOW") {
            Ok(FanMode::Low)
        } else if str_eq(mode, "MEDIUM") {
            Ok(FanMode::Medium)
        } else if str_eq(mode, "HIGH") {
            Ok(FanMode::High)
        } else if str_eq(mode, "CHAOS") {
            Ok(FanMode::Chaos)
        } else {
            Err(())
        }
    }

    /// The fan mode's name, as `LOW`, `MEDIUM`, `HIGH` or `CHAOS`.
    pub fn to_string(&self) -> (r: String)
        ensures
            r@ == fan_mode_text(*self),
    {
        match self {
            FanMode::Low => {
                proof { reveal_strlit("LOW"); }
                String::from_str("LOW")
            },
            FanMode::Medium => {
                proof { reveal_strlit("MEDIUM"); }
                String::from_str("MEDIUM")
            },
            FanMode::High => {
                proof { reveal_strlit("HIGH"); }
                String::from_str("HIGH")
            },
            FanMode::Chaos => {
                proof { reveal_strlit("CHAOS"); }
                String::from_str("CHAOS")
            },
        }
    }
}

/// The state of the air conditioner.
///
/// The target temperature is a number of degrees Celsius; the library holds
/// it as its decimal text, the form in which it travels in infrared commands
/// and in stored settings.
pub struct State {
    pub updated: bool,
    pub mode: Mode,
    pub min_temp: i32,
    pub max_temp: i32,
    pub target_temp: String,
    pub fan_speed: i32,
    pub fan_mode: FanMode,
}

/// The text of the default target temperature, 18 degrees.
pub open spec fn default_target_text() -> Seq<char> {
    seq!['1', '8']
}

impl State {
    /// The state holds the default value of every field but those named by
    /// the arguments' being false.
    pub open spec fn defaults_except(self, mode: bool, target: bool, fan_mode: bool) -> bool {
        &&& self.updated
        &&& mode || self.mode == Mode::Off
        &&& self.min_temp == 18
        &&& self.max_temp == 30
        &&& target || self.target_temp@ == default_target_text()
        &&& self.fan_speed == 0
        &&& fan_mode || self.fan_mode == FanMode::Low
    }

    /// Every field holds its default value.
    pub open spec fn is_default(self) -> bool {
        self.defaults_except(false, false, false)
    }
}

impl Clone for State {
    fn clone(&self) -> (r: Self)
        ensures
            r == *self,
    {
        State {
            updated: self.updated,
            mode: self.mode,
            min_temp: self.min_temp,
            max_temp: self.max_temp,
            target_temp: self.target_temp.clone(),
            fan_speed: self.fan_speed,
            fan_mode: self.fan_mode,
        }
    }
}

impl Default for State {
    fn default() -> (r: Self)
        ensures
            r.is_default(),
    {
        proof {
            reveal_strlit("18");
            assert("18"@ =~= default_target_text());
        }
        State {
            updated: true,
            mode: Mode::Off,
            min_temp: 18,
            max_temp: 30,
            target_temp: String::from_str("18"),
            fan_speed: 0,
            fan_mode: FanMode::Low,
        }
    }
}

/// The infrared command that sends a state: mode, fan mode and target
/// temperature, joined by `_`.
pub open spec fn command_text(mode: Mode, fan_mode: FanMode, target: Seq<char>) -> Seq<char> {
    mode_text(mode) + seq!['_'] + fan_mode_text(fan_mode) + seq!['_'] + target
}

/// Why a line from the infrared receiver cannot be read as a state.
#[derive(PartialEq, Eq, Structural, Debug, Copy, Clone)]
pub enum LircFault {
    /// The line has fewer than three space-separated fields.
    MissingCommand,
    /// The command does not begin with a mode's name.
    Mode,
    /// The command has no fan mode part.
    MissingFanMode,
    /// The command's second part is not a fan mode's name.
    FanMode,
}

/// The space-separated fields of a line from the infrared receiver: code,
/// repeat count, command and remote name.
pub open spec fn lirc_fields(line: Seq<char>) -> Seq<Seq<char>> {
    split_on(line, ' ')
}

/// The `_`-separated parts of the line's command (its third field).
pub open spec fn lirc_parts(line: Seq<char>) -> Seq<Seq<char>> {
    split_on(lirc_fields(line)[2], '_')
}

/// The first reason, in reading order, why the line is no state; `None`
/// when it is one.
pub open spec fn lirc_fault(line: Seq<char>) -> Option<LircFault> {
    if lirc_fields(line).len() < 3 {
        Some(LircFault::MissingCommand)
    } else if mode_of_text(lirc_parts(line)[0]) is None {
        Some(LircFault::Mode)
    } else if lirc_parts(line).len() < 2 {
        Some(LircFault::MissingFanMode)
    } else if fan_mode_of_text(lirc_parts(line)[1]) is None {
        Some(LircFault::FanMode)
    } else {
        None
    }
}

/// The target temperature that a readable line sets: its command's third
/// part when there is one, else the default.
pub open spec fn lirc_target(line: Seq<char>) -> Seq<char> {
    if lirc_parts(line).len() > 2 {
        lirc_parts(line)[2]
    } else {
        default_target_text()
    }
}

/// Reads a line from the infrared receiver as far as the library can:
/// the mode, the fan mode and the target temperature's text.
fn decode_lirc_line(command: &str) -> (r: Result<(Mode, FanMode, String), LircFault>)
    ensures
        r is Err <==> lirc_fault(command@) is Some,
        r matches Err(f) ==> lirc_fault(command@) == Some(f),
        r matches Ok((m, f, t)) ==> {
            &&& Some(m) == mode_of_text(lirc_parts(command@)[0])
            &&& Some(f) == fan_mode_of_text(lirc_parts(command@)[1])
            &&& t@ == lirc_target(command@)
        },
{
    let fields = split(command, ' ');
    if fields.len() < 3 {
        return Err(LircFault::MissingCommand);
    }
    let parts = split(fields[2].as_str(), '_');
    proof {
        crate::text::lemma_split_on_nonempty(lirc_fields(command@)[2], '_');
    }
    let mode = match Mode::from_str(parts[0].as_str()) {
        Ok(m) => m,
        Err(_) => return Err(LircFault::Mode),
    };
    if parts.len() < 2 {
        return Err(LircFault::MissingFanMode);
    }
    let fan_mode = match FanMode::from_str(parts[1].as_str()) {
        Ok(m) => m,
        Err(_) => return Err(LircFault::FanMode),
    };
    let target = if parts.len() > 2 {
        parts[2].clone()
    } else {
        proof {
            reveal_strlit("18");
            assert("18"@ =~= default_target_text());
        }
        String::from_str("18")
    };
    Ok((mode, fan_mode, target))
}

/// Tells whether a line from the infrared receiver can be read as a state,
/// and if not, the first reason why.
pub fn check_lirc_command(command: &str) -> (r: Option<LircFault>)
    ensures
        r == lirc_fault(command@),
{
    match decode_lirc_line(command) {
        Ok(_) => None,
        Err(f) => Some(f),
    }
}

impl State {
    /// The state that a line from the infrared receiver (`code repeat
    /// command remote`, the command `MODE_FAN` or `MODE_FAN_TEMP`) sets: the
    /// default state with the command's mode, fan mode and, where it has
    /// one, target temperature.
    pub fn from_lirc_command(command: &str) -> (r: Result<State, &str>)
        requires
            lirc_fault(command@) is None,
        ensures
            r matches Ok(s) && {
                &&& s.defaults_except(true, true, true)
                &&& Some(s.mode) == mode_of_text(lirc_parts(command@)[0])
                &&& Some(s.fan_mode) == fan_mode_of_text(lirc_parts(command@)[1])
                &&& s.target_temp@ == lirc_target(command@)
            },
    {
        let (mode, fan_mode, target) = match decode_lirc_line(command) {
            Ok(d) => d,
            Err(_) => {
                assert(false);
                return Err("unreadable command");
            },
        };
        let mut s = State::default();
        s.mode = mode;
        s.fan_mode = fan_mode;
        s.target_temp = target;
        Ok(s)
    }

    /// The infrared command that sends `state`: `MODE_FAN_TEMP`.
    pub fn from_state(state: State) -> (r: String)
        ensures
            r@ == command_text(state.mode, state.fan_mode, state.target_temp@),
    {
        proof {
            reveal_strlit("_");
        }
        let mut cmd = state.mode.to_string();
        cmd.append("_");
        cmd.append(state.fan_mode.to_string().as_str());
        cmd.append("_");
        cmd.append(state.target_temp.as_str());
        cmd
    }
}

/// Every mode's name is read back as that mode.
pub proof fn law_mode_text_reads_back(m: Mode)
    ensures
        mode_of_text(mode_text(m)) == Some(m),
{
    let t = mode_text(m);
    match m {
        Mode::Off => {},
        Mode::Fan => {
            assert(t[0] != mode_text(Mode::Off)[0]);
        },
        Mode::AI => {},
        Mode::AC => {
            assert(t[1] != mode_text(Mode::AI)[1]);
        },
        Mode::Dehum => {},
        Mode::Heat => {
            assert(t[0] != mode_text(Mode::Fan)[0]);
            assert(t[0] != mode_text(Mode::Off)[0]);
        },
    }
}

/// Every fan mode's name is read back as that fan mode.
pub proof fn law_fan_mode_text_reads_back(m: FanMode)
    ensures
        fan_mode_of_text(fan_mode_text(m)) == Some(m),
{
    let t = fan_mode_text(m);
    match m {
        FanMode::Low => {},
        FanMode::Medium => {},
        FanMode::High => {
            assert(t[0] != fan_mode_text(FanMode::Low)[0]);
        },
        FanMode::Chaos => {},
    }
}

proof fn lemma_names_have_no_separators(m: Mode, f: FanMode)
    ensures
        !mode_text(m).contains(' '),
        !mode_text(m).contains('_'),
        !fan_mode_text(f).contains(' '),
        !fan_mode_text(f).contains('_'),
{
    let a = mode_text(m);
    let b = fan_mode_text(f);
    assert forall|i: int| 0 <= i < a.len() implies a[i] != ' ' && a[i] != '_' by {}
    assert forall|i: int| 0 <= i < b.len() implies b[i] != ' ' && b[i] != '_' by {}
}

/// A receiver line whose command field is the command that `from_state`
/// writes for a mode, a fan mode and a target temperature is read back as
/// that mode, fan mode and target temperature, whenever the code, the repeat
/// count and the temperature hold no space and the temperature no `_`.
pub proof fn law_command_reads_back(
    code: Seq<char>,
    repeat: Seq<char>,
    remote: Seq<char>,
    mode: Mode,
    fan_mode: FanMode,
    target: Seq<char>,
)
    requires
        !code.contains(' '),
        !repeat.contains(' '),
        !target.contains(' '),
        !target.contains('_'),
    ensures
        ({
            let line = code + seq![' '] + repeat + seq![' '] + command_text(mode, fan_mode, target)
                + seq![' '] + remote;
            &&& lirc_fault(line) is None
            &&& mode_of_text(lirc_parts(line)[0]) == Some(mode)
            &&& fan_mode_of_text(lirc_parts(line)[1]) == Some(fan_mode)
            &&& lirc_target(line) == target
        }),
{
    let cmd = command_text(mode, fan_mode, target);
    let line = code + seq![' '] + repeat + seq![' '] + cmd + seq![' '] + remote;
    lemma_names_have_no_separators(mode, fan_mode);
    law_mode_text_reads_back(mode);
    law_fan_mode_text_reads_back(fan_mode);
    let mt = mode_text(mode);
    let ft = fan_mode_text(fan_mode);
    assert(!cmd.contains(' ')) by {
        if cmd.contains(' ') {
            let k = choose|k: int| 0 <= k < cmd.len() && cmd[k] == ' ';
            if k < mt.len() {
                assert(mt[k] == ' ');
            } else if k == mt.len() {
            } else if k < mt.len() + 1 + ft.len() {
                assert(ft[k - mt.len() - 1] == ' ');
            } else if k == mt.len() + 1 + ft.len() {
            } else {
                assert(target[k - mt.len() - 2 - ft.len()] == ' ');
            }
        }
    }
    let rest1 = repeat + seq![' '] + cmd + seq![' '] + remote;
    let rest2 = cmd + seq![' '] + remote;
    assert(line =~= code + seq![' '] + rest1);
    assert(rest1 =~= repeat + seq![' '] + rest2);
    lemma_split_on_prefix(code, rest1, ' ');
    lemma_split_on_prefix(repeat, rest2, ' ');
    lemma_split_on_prefix(cmd, remote, ' ');
    assert(lirc_fields(line) =~= seq![code, repeat, cmd] + split_on(remote, ' '));
    assert(lirc_fields(line)[2] == cmd);
    let frest = ft + seq!['_'] + target;
    assert(cmd =~= mt + seq!['_'] + frest);
    lemma_split_on_prefix(mt, frest, '_');
    lemma_split_on_prefix(ft, target, '_');
    lemma_split_on_no_sep(target, '_');
    assert(lirc_parts(line) =~= seq![mt, ft, target]);
}

/// The command that sends a state always has exactly three `_`-separated
/// parts, whatever the target: the mode's name, the fan mode's name and the
/// target temperature's text (for a target text without `_`).
pub proof fn law_command_parts(mode: Mode, fan_mode: FanMode, target: Seq<char>)
    requires
        !target.contains('_'),
    ensures
        split_on(command_text(mode, fan_mode, target), '_') == seq![
            mode_text(mode),
            fan_mode_text(fan_mode),
            target,
        ],
        command_text(mode, fan_mode, target).len() == mode_text(mode).len() + fan_mode_text(
            fan_mode,
        ).len() + target.len() + 2,
{
    lemma_names_have_no_separators(mode, fan_mode);
    let mt = mode_text(mode);
    let ft = fan_mode_text(fan_mode);
    let frest = ft + seq!['_'] + target;
    assert(command_text(mode, fan_mode, target) =~= mt + seq!['_'] + frest);
    lemma_split_on_prefix(mt, frest, '_');
    lemma_split_on_prefix(ft, target, '_');
    lemma_split_on_no_sep(target, '_');
    assert(split_on(command_text(mode, fan_mode, target), '_') =~= seq![mt, ft, target]);
}

/// The names of the modes and fan modes, letter by letter.
pub proof fn law_names()
    ensures
        mode_text(Mode::Off) == seq!['O', 'F', 'F'],
        mode_text(Mode::Fan) == seq!['F', 'A', 'N'],
        mode_text(Mode::AI) == seq!['A', 'I'],
        mode_text(Mode::AC) == seq!['A', 'C'],
        mode_text(Mode::Dehum) == seq!['D', 'E', 'H', 'U', 'M'],
        mode_text(Mode::Heat) == seq!['H', 'E', 'A', 'T'],
        fan_mode_text(FanMode::Low) == seq!['L', 'O', 'W'],
        fan_mode_text(FanMode::Medium) == seq!['M', 'E', 'D', 'I', 'U', 'M'],
        fan_mode_text(FanMode::High) == seq!['H', 'I', 'G', 'H'],
        fan_mode_text(FanMode::Chaos) == seq!['C', 'H', 'A', 'O', 'S'],
        default_target_text() == seq!['1', '8'],
{
}

} // verus!
