//! Turbo boost control: which interface is present, what its file says, and
//! what to write to switch boost on or off.
use vstd::prelude::*;
use vstd::string::*;
use crate::text::{parse_u8, trim, trimmed, unsigned_text_value};

verus! {

/// Intel pstate: `1` means turbo disabled.
pub const INTEL_NO_TURBO_PATH: &'static str = "/sys/devices/system/cpu/intel_pstate/no_turbo";

/// Generic cpufreq boost: `1` means turbo enabled.
pub const CPUFREQ_BOOST_PATH: &'static str = "/sys/devices/system/cpu/cpufreq/boost";

/// AMD pstate status; in `active` mode the driver controls boost itself.
pub const AMD_PSTATE_STATUS_PATH: &'static str = "/sys/devices/system/cpu/amd_pstate/status";

#[derive(Debug)]
pub enum TurboError {
    /// The turbo file could not be read, or did not hold a state.
    ReadError(std::io::Error),
    /// The turbo file could not be written; the path and the reason.
    WriteError(String),
    /// No interface for turbo control was found.
    NotAvailable,
}

impl TurboError {
    /// The message that describes the error, without the outside error's own text.
    pub fn kind_message(&self) -> (r: String)
        ensures
            r@ == match self {
                TurboError::ReadError(_) => "Failed to read turbo state"@,
                TurboError::WriteError(m) => "Failed to write turbo state: "@ + m@,
                TurboError::NotAvailable => "Turbo boost control not available"@,
            },
    {
        match self {
            TurboError::ReadError(_) => String::from_str("Failed to read turbo state"),
            TurboError::WriteError(m) => String::from_str("Failed to write turbo state: ").concat(
                m.as_str(),
            ),
            TurboError::NotAvailable => String::from_str("Turbo boost control not available"),
        }
    }
}

/// `std::io::Error::new(ErrorKind::InvalidData, msg)`: a new error of kind
/// `InvalidData` that carries `msg`. The contract claims nothing of the
/// value: each call makes a new error with its own allocation, and its kind
/// and message are left unsaid.
#[verifier::external_body]
fn invalid_data_error(msg: &str) -> std::io::Error
{
    std::io::Error::new(std::io::ErrorKind::InvalidData, msg)
}

/// Turbo boost controller
pub struct TurboController {
    /// Path to turbo control file
    path: String,
    /// Whether the file uses inverse logic (1 = disabled)
    inverse: bool,
    /// Original state to restore on shutdown
    original_state: bool,
}

/// The state of a `TurboController`.
pub struct TurboState {
    pub path: Seq<char>,
    pub inverse: bool,
    pub original_state: bool,
}

impl View for TurboController {
    type V = TurboState;

    closed spec fn view(&self) -> TurboState {
        TurboState { path: self.path@, inverse: self.inverse, original_state: self.original_state }
    }
}

/// Whether turbo is on, by the number in a turbo file: `1` means the file's
/// own sense (enabled for boost, disabled for no_turbo).
pub open spec fn turbo_on(value: int, inverse: bool) -> bool {
    (value == 1) != inverse
}

/// What reading a turbo file's text gives: the state, or `None` when the
/// text is not a `u8`.
pub open spec fn state_of_text(text: Seq<char>, inverse: bool) -> Option<bool> {
    match unsigned_text_value(trimmed(text), u8::MAX as int) {
        Some(v) => Some(turbo_on(v, inverse)),
        None => None,
    }
}

/// The text that switches turbo to `enabled` through a file of this sense.
pub open spec fn state_text(enabled: bool, inverse: bool) -> Seq<char> {
    if enabled != inverse {
        "1"@
    } else {
        "0"@
    }
}

/// What `read_state` gives for a read of the turbo file.
pub open spec fn read_outcome(
    content: Result<String, std::io::Error>,
    inverse: bool,
    r: Result<bool, TurboError>,
) -> bool {
    match content {
        Err(e) => r == Err::<bool, TurboError>(TurboError::ReadError(e)),
        Ok(text) => match state_of_text(text@, inverse) {
            Some(on) => r == Ok::<bool, TurboError>(on),
            None => r matches Err(TurboError::ReadError(_)),
        },
    }
}

/// What detection gives for the read of the interface file found at `path`.
pub open spec fn found_outcome(
    content: Result<String, std::io::Error>,
    inverse: bool,
    path: Seq<char>,
    r: Result<TurboController, TurboError>,
) -> bool {
    match content {
        Err(e) => r == Err::<TurboController, TurboError>(TurboError::ReadError(e)),
        Ok(text) => match state_of_text(text@, inverse) {
            Some(on) => r matches Ok(c) && c@ == (TurboState { path, inverse, original_state: on }),
            None => r matches Err(TurboError::ReadError(_)),
        },
    }
}

impl TurboController {
    /// Detect and create turbo controller from the reads of the Intel
    /// `no_turbo` file and of the cpufreq `boost` file (`None` where the file
    /// does not exist). The Intel interface wins when both exist.
    pub fn detect(
        intel: Option<Result<String, std::io::Error>>,
        boost: Option<Result<String, std::io::Error>>,
    ) -> (r: Result<Self, TurboError>)
        ensures
            match intel {
                Some(content) => found_outcome(content, true, INTEL_NO_TURBO_PATH@, r),
                None => match boost {
                    Some(content) => found_outcome(content, false, CPUFREQ_BOOST_PATH@, r),
                    None => r matches Err(TurboError::NotAvailable),
                },
            },
    {
        // Intel pstate: no_turbo file (1 = turbo disabled, inverse logic)
        if let Some(content) = intel {
            let original = match Self::read_state(content, true) {
                Ok(on) => on,
                Err(e) => {
                    return Err(e);
                },
            };
            return Ok(
                TurboController {
                    path: String::from_str(INTEL_NO_TURBO_PATH),
                    inverse: true,
                    original_state: original,
                },
            );
        }
        // Generic cpufreq boost (1 = turbo enabled)

        if let Some(content) = boost {
            let original = match Self::read_state(content, false) {
                Ok(on) => on,
                Err(e) => {
                    return Err(e);
                },
            };
            return Ok(
                TurboController {
                    path: String::from_str(CPUFREQ_BOOST_PATH),
                    inverse: false,
                    original_state: original,
                },
            );
        }
        Err(TurboError::NotAvailable)
    }

    /// The state that a turbo file's content shows.
    pub fn read_state(content: Result<String, std::io::Error>, inverse: bool) -> (r: Result<
        bool,
        TurboError,
    >)
        ensures
            read_outcome(content, inverse, r),
    {
        let text = match content {
            Err(e) => {
                return Err(TurboError::ReadError(e));
            },
            Ok(text) => text,
        };
        proof {
            crate::text::lemma_unsigned_text_value_in_range(trimmed(text@), u8::MAX as int);
        }
        match parse_u8(trim(text.as_str())) {
            Some(value) => Ok((value == 1) != inverse),
            None => Err(TurboError::ReadError(invalid_data_error("Failed to parse turbo state"))),
        }
    }

    /// Set turbo boost state: the text to write to the turbo file.
    pub fn set_enabled(&self, enabled: bool) -> (r: &'static str)
        ensures
            r@ == state_text(enabled, self@.inverse),
    {
        if enabled != self.inverse {
            "1"
        } else {
            "0"
        }
    }

    /// Restore original turbo state: the text that puts it back.
    pub fn restore(&self) -> (r: &'static str)
        ensures
            r@ == state_text(self@.original_state, self@.inverse),
    {
        self.set_enabled(self.original_state)
    }

    /// Whether turbo was on when the controller was created.
    pub fn original_state(&self) -> (r: bool)
        ensures
            r == self@.original_state,
    {
        self.original_state
    }

    /// The turbo file that is read and written.
    pub fn path(&self) -> (r: &str)
        ensures
            r@ == self@.path,
    {
        self.path.as_str()
    }
}

/// Reading back what `set_enabled` wrote shows the state that was set.
pub proof fn lemma_written_state_reads_back(enabled: bool, inverse: bool)
    ensures
        state_of_text(state_text(enabled, inverse), inverse) == Some(enabled),
{
    reveal_strlit("1");
    reveal_strlit("0");
    let t = state_text(enabled, inverse);
    assert(t.len() == 1);
    assert(!crate::text::is_ws(t[0]));
    assert(crate::text::trim_start(t) == t);
    assert(crate::text::trim_end(t) == t);
    assert(t.drop_last() =~= Seq::<char>::empty());
    assert(crate::text::digits_value(t.drop_last()) == 0);
    assert(crate::text::all_digits(t));
}

} // verus!
