//! Settings that outlive the program.
use crate::double::Double;
use crate::gpu_control::{CurvePoint, FanMode};
use crate::text::{joined, text_of};
use vstd::prelude::*;

verus! {

/// Persisted settings of a card, applied again on startup.
#[derive(Clone, Debug)]
pub struct GpuConfig {
    /// Schema version for forward compatibility
    pub version: u32,
    /// Device path (such as "/sys/class/drm/card1/device") to verify that it is the same card
    pub gpu_id: Option<String>,
    pub fan: FanConfig,
    pub power_cap_watts: Option<Double>,
    pub voltage_offset_mv: Option<i32>,
}

#[derive(Clone, Debug)]
pub enum FanConfig {
    Auto,
    Manual { speed_pct: Double },
    Curve { points: Vec<CurvePoint> },
}

impl Default for GpuConfig {
    fn default() -> (r: GpuConfig)
        ensures
            r == (GpuConfig {
                version: 1,
                gpu_id: None,
                fan: FanConfig::Auto,
                power_cap_watts: None,
                voltage_offset_mv: None,
            }),
    {
        GpuConfig {
            version: 1,
            gpu_id: None,
            fan: FanConfig::Auto,
            power_cap_watts: None,
            voltage_offset_mv: None,
        }
    }
}

impl FanConfig {
    /// Whether this is what a fan in the given state is saved as: a manual fan without a known
    /// speed at 50 percent, a curve without known points without points, and anything else
    /// automatic.
    pub open spec fn saves(
        self,
        mode: Option<FanMode>,
        speed_pct: Option<Double>,
        curve: Option<Seq<CurvePoint>>,
    ) -> bool {
        match mode {
            Some(FanMode::Manual) => self matches FanConfig::Manual { speed_pct: saved } && (
            match speed_pct {
                Some(speed) => saved == speed,
                None => saved.is_whole(50),
            }),
            Some(FanMode::Curve) => self matches FanConfig::Curve { points } && points@ == (
            match curve {
                Some(points) => points,
                None => Seq::<CurvePoint>::empty(),
            }),
            _ => self is Auto,
        }
    }
}

pub open spec fn points_of(curve: Option<Vec<CurvePoint>>) -> Option<Seq<CurvePoint>> {
    match curve {
        Some(points) => Some(points@),
        None => None,
    }
}

impl GpuConfig {
    /// Builds the settings to save from the current state of the device.
    pub fn from_control_state(
        fan_mode: Option<FanMode>,
        fan_speed_pct: Option<Double>,
        fan_curve: Option<Vec<CurvePoint>>,
        power_cap_watts: Option<Double>,
        voltage_offset_mv: Option<i32>,
        gpu_id: Option<String>,
    ) -> (r: GpuConfig)
        ensures
            r.version == 1,
            r.gpu_id == gpu_id,
            r.fan.saves(fan_mode, fan_speed_pct, points_of(fan_curve)),
            fan_mode == Some(FanMode::Manual) ==> (r.fan matches FanConfig::Manual { speed_pct }
                && match fan_speed_pct {
                Some(speed) => speed_pct == speed,
                None => speed_pct.is_whole(50),
            }),
            fan_mode == Some(FanMode::Curve) ==> (r.fan matches FanConfig::Curve { points }
                && match fan_curve {
                Some(curve) => points@ == curve@,
                None => points@.len() == 0,
            }),
            fan_mode != Some(FanMode::Manual) && fan_mode != Some(FanMode::Curve) ==> r.fan is Auto,
            r.power_cap_watts == power_cap_watts,
            r.voltage_offset_mv == voltage_offset_mv,
    {
        let fan: FanConfig = match fan_mode {
            Some(FanMode::Manual) => FanConfig::Manual {
                speed_pct: match fan_speed_pct {
                    Some(speed) => speed,
                    None => Double::whole(50),
                },
            },
            Some(FanMode::Curve) => FanConfig::Curve {
                points: match fan_curve {
                    Some(points) => points,
                    None => Vec::new(),
                },
            },
            _ => FanConfig::Auto,
        };
        GpuConfig { version: 1, gpu_id, fan, power_cap_watts, voltage_offset_mv }
    }
}

// ---- Where settings live ----

/// Where the settings file lies: at a named path, or some entries below a directory, each in the
/// one before it.
#[derive(Debug)]
pub enum SettingsPath {
    Named(String),
    Below { dir: String, entries: Vec<String> },
}

/// Where the settings file lies, by its texts.
pub enum SettingsPlace {
    Named(Seq<char>),
    Below { dir: Seq<char>, entries: Seq<Seq<char>> },
}

pub open spec fn texts(list: Seq<String>) -> Seq<Seq<char>> {
    list.map_values(|text: String| text@)
}

impl View for SettingsPath {
    type V = SettingsPlace;

    open spec fn view(&self) -> SettingsPlace {
        match self {
            SettingsPath::Named(path) => SettingsPlace::Named(path@),
            SettingsPath::Below { dir, entries } => SettingsPlace::Below {
                dir: dir@,
                entries: texts(entries@),
            },
        }
    }
}

/// The place of the settings file: the path that is named, or else `gpupeek/config.json` below the
/// named settings directory, or below `.config` in the user's home, which is /tmp for a user
/// without one.
pub open spec fn config_file(
    named: Option<Seq<char>>,
    config_home: Option<Seq<char>>,
    home: Option<Seq<char>>,
) -> SettingsPlace {
    match (named, config_home) {
        (Some(path), _) => SettingsPlace::Named(path),
        (None, Some(dir)) => SettingsPlace::Below {
            dir,
            entries: seq!["gpupeek"@, "config.json"@],
        },
        (None, None) => SettingsPlace::Below {
            dir: match home {
                Some(dir) => dir,
                None => "/tmp"@,
            },
            entries: seq![".config"@, "gpupeek"@, "config.json"@],
        },
    }
}

/// Resolves the settings file's place from the variables `GPUPEEK_CONFIG`, `XDG_CONFIG_HOME` and
/// `HOME`.
pub fn config_path(
    gpupeek_config: Option<String>,
    xdg_config_home: Option<String>,
    home: Option<String>,
) -> (r: SettingsPath)
    ensures
        r@ == config_file(text_of(gpupeek_config), text_of(xdg_config_home), text_of(home)),
        gpupeek_config matches Some(path) ==> (r matches SettingsPath::Named(named) && named@
            == path@),
        gpupeek_config is None ==> r is Below,
        gpupeek_config is None && xdg_config_home is Some ==> {
            &&& r->dir@ == xdg_config_home->Some_0@
            &&& r->entries.len() == 2
            &&& r->entries[0]@ == "gpupeek"@
            &&& r->entries[1]@ == "config.json"@
        },
        gpupeek_config is None && xdg_config_home is None ==> {
            &&& r->dir@ == match home {
                Some(dir) => dir@,
                None => "/tmp"@,
            }
            &&& r->entries.len() == 3
            &&& r->entries[0]@ == ".config"@
            &&& r->entries[1]@ == "gpupeek"@
            &&& r->entries[2]@ == "config.json"@
        },
{
    if let Some(path) = gpupeek_config {
        return SettingsPath::Named(path);
    }
    let mut entries: Vec<String> = Vec::new();
    let dir: String = match xdg_config_home {
        Some(dir) => dir,
        None => {
            entries.push(".config".to_owned());
            match home {
                Some(home) => home,
                None => "/tmp".to_owned(),
            }
        },
    };
    entries.push("gpupeek".to_owned());
    entries.push("config.json".to_owned());
    proof {
        let names = texts(entries@);
        if xdg_config_home is Some {
            assert(names =~= seq!["gpupeek"@, "config.json"@]);
        } else {
            assert(names =~= seq![".config"@, "gpupeek"@, "config.json"@]);
        }
    }
    SettingsPath::Below { dir, entries }
}

// ---- Saving ----

/// What is to be done next to save settings. The file in place is touched by the last step
/// alone.
#[derive(Debug)]
pub enum SaveStep {
    /// Make the directory that the file lies in, and those above it.
    CreateDir,
    /// Turn the settings into text.
    Serialize,
    /// Write the text to another file, beside the one in place.
    WriteTemp,
    /// Put the new file in the place of the old.
    Rename,
    Saved,
    Failed(String),
}

impl SaveStep {
    /// What a failure of the step is announced with.
    pub open spec fn complaint(self) -> Seq<char> {
        match self {
            SaveStep::CreateDir => "failed to create config dir: "@,
            SaveStep::Serialize => "failed to serialize config: "@,
            SaveStep::WriteTemp => "failed to write temp config: "@,
            SaveStep::Rename => "failed to rename config: "@,
            _ => Seq::empty(),
        }
    }

    pub open spec fn ended(self) -> bool {
        self is Saved || self is Failed
    }

    /// Which step follows when this one succeeds or fails.
    pub open spec fn leads_to(self, success: bool, next: SaveStep) -> bool {
        if self.ended() {
            next == self
        } else if !success {
            next is Failed
        } else {
            match self {
                SaveStep::CreateDir => next is Serialize,
                SaveStep::Serialize => next is WriteTemp,
                SaveStep::WriteTemp => next is Rename,
                _ => next is Saved,
            }
        }
    }

    /// The first step: a file that lies in no directory needs none made.
    pub fn first(has_parent: bool) -> (r: SaveStep)
        ensures
            r == if has_parent {
                SaveStep::CreateDir
            } else {
                SaveStep::Serialize
            },
    {
        if has_parent {
            SaveStep::CreateDir
        } else {
            SaveStep::Serialize
        }
    }

    /// The step that follows when this one has been done, or the end when it failed for the
    /// given reason.
    pub fn next(self, outcome: Result<(), String>) -> (r: SaveStep)
        ensures
            self.leads_to(outcome is Ok, r),
            !self.ended() && outcome is Err ==> (r matches SaveStep::Failed(text) && text@
                == self.complaint() + outcome->Err_0@),
            outcome matches Err(reason) ==> match self {
                SaveStep::CreateDir => r matches SaveStep::Failed(text) && text@
                    == "failed to create config dir: "@ + reason@,
                SaveStep::Serialize => r matches SaveStep::Failed(text) && text@
                    == "failed to serialize config: "@ + reason@,
                SaveStep::WriteTemp => r matches SaveStep::Failed(text) && text@
                    == "failed to write temp config: "@ + reason@,
                SaveStep::Rename => r matches SaveStep::Failed(text) && text@
                    == "failed to rename config: "@ + reason@,
                _ => r == self,
            },
    {
        match outcome {
            Ok(_) => match self {
                SaveStep::CreateDir => SaveStep::Serialize,
                SaveStep::Serialize => SaveStep::WriteTemp,
                SaveStep::WriteTemp => SaveStep::Rename,
                SaveStep::Rename => SaveStep::Saved,
                ended => ended,
            },
            Err(reason) => match self {
                SaveStep::CreateDir => SaveStep::Failed(
                    joined("failed to create config dir: ", reason.as_str()),
                ),
                SaveStep::Serialize => SaveStep::Failed(
                    joined("failed to serialize config: ", reason.as_str()),
                ),
                SaveStep::WriteTemp => SaveStep::Failed(
                    joined("failed to write temp config: ", reason.as_str()),
                ),
                SaveStep::Rename => SaveStep::Failed(
                    joined("failed to rename config: ", reason.as_str()),
                ),
                ended => ended,
            },
        }
    }
}

/// Whether saving went through these steps, with these successes and failures.
pub open spec fn is_run(steps: Seq<SaveStep>, success: Seq<bool>) -> bool {
    &&& steps.len() > 0
    &&& steps[0] is CreateDir || steps[0] is Serialize
    &&& success.len() == steps.len()
    &&& forall|i: int|
        0 <= i < steps.len() - 1 ==> steps[i].leads_to(#[trigger] success[i], steps[i + 1])
}

/// Saving is atomic, where the text is first written to a file other than the one in place: that
/// one is replaced only right after the new one has been written in full, and a save is reported
/// as done exactly if it has been replaced.
pub proof fn law_save_is_atomic(steps: Seq<SaveStep>, success: Seq<bool>, i: int)
    requires
        is_run(steps, success),
        0 <= i < steps.len(),
    ensures
        steps[i] is Rename ==> i > 0 && steps[i - 1] is WriteTemp && success[i - 1],
        forall|j: int|
            0 <= j < i && (#[trigger] steps[j]) is Rename && success[j] ==> steps[i] is Saved,
        steps[i] is Saved ==> exists|j: int|
            0 <= j < i && (#[trigger] steps[j]) is Rename && success[j],
    decreases i,
{
    if i > 0 {
        law_save_is_atomic(steps, success, i - 1);
        assert(steps[i - 1].leads_to(success[i - 1], steps[i]));
    }
}

} // verus!
