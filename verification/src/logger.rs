//! The logging sink of the runtime.
//!
//! The logger formats every message here, in verified code, and queues the
//! finished chunks; the host around the library drains the queue and writes
//! the chunks to the day's log file in order. Nothing is queued while no
//! log file is open, which mirrors a runtime whose logging is off.

use vstd::prelude::*;
use crate::element::{ElemModel, Element};
use crate::tags::ApicaTypeBytecode;
use crate::value::{spec_convert, spec_render_str, Value, ValueModel};

verus! {

/// Mathematical model of the logger: whether logging is on at all,
/// whether a log file is open, and the chunks queued for it so far.
pub struct LoggerModel {
    pub active: bool,
    pub file_open: bool,
    pub out: Seq<Seq<char>>,
}

/// Text a single parameter contributes to a log line: a string payload is
/// rendered directly, anything else is coerced to `String` first, and a
/// value that does not coerce shows as `null`.
pub open spec fn spec_param_text(e: ElemModel) -> Seq<char> {
    match e.value {
        ValueModel::Str(p) => spec_render_str(p),
        _ => match spec_convert(e.value, ApicaTypeBytecode::String) {
            Some(ValueModel::Str(p)) => spec_render_str(p),
            _ => "null"@,
        },
    }
}

/// Text of a whole parameter list.
pub open spec fn spec_params_text(params: Seq<ElemModel>) -> Seq<char>
    decreases params.len(),
{
    if params.len() == 0 {
        Seq::empty()
    } else {
        spec_params_text(params.drop_last()) + spec_param_text(params.last())
    }
}

/// The logger after appending one chunk: unchanged while no file is open.
pub open spec fn spec_logger_append(lg: LoggerModel, chunk: Seq<char>) -> LoggerModel {
    if lg.file_open {
        LoggerModel { active: lg.active, file_open: lg.file_open, out: lg.out.push(chunk) }
    } else {
        lg
    }
}

/// The chunk of a guest log call: prefix, the parameters' text, suffix.
pub open spec fn spec_log_chunk(prefix: Seq<char>, params: Seq<ElemModel>, suffix: Seq<char>)
    -> Seq<char> {
    prefix + spec_params_text(params) + suffix
}

/// The chunk of an internal success line.
pub open spec fn spec_sys_success_chunk(message: Seq<char>) -> Seq<char> {
    "\u{1b}[32mAPC_SUC: "@ + message + "\u{1b}[0m\n"@
}

/// The chunk of an internal error line.
pub open spec fn spec_sys_error_chunk(message: Seq<char>) -> Seq<char> {
    "\u{1b}[31mAPC_ERR: "@ + message + "\u{1b}[0m\n"@
}

/// The logging sink.
pub struct LoggerSystem {
    active: bool,
    file_open: bool,
    out: Vec<String>,
}

impl View for LoggerSystem {
    type V = LoggerModel;

    closed spec fn view(&self) -> LoggerModel {
        LoggerModel {
            active: self.active,
            file_open: self.file_open,
            out: self.out@.map(|i: int, s: String| s@),
        }
    }
}

impl LoggerSystem {
    /// Whether logging was activated at startup.
    pub open spec fn spec_active(&self) -> bool {
        self@.active
    }

    /// A fresh logger; `activate` decides whether log files may be opened
    /// at all.
    pub fn init(activate: bool) -> (r: LoggerSystem)
        ensures
            r@.file_open == false,
            r@.out =~= Seq::<Seq<char>>::empty(),
            r.spec_active() == activate,
    {
        let r = LoggerSystem { active: activate, file_open: false, out: Vec::new() };
        proof {
            assert(r@.out =~= Seq::<Seq<char>>::empty());
        }
        r
    }

    /// Opens the log file of the given app; a no-op when logging is off.
    /// The host around the library creates the file itself.
    pub fn create_file_for(&mut self, app_name: &str)
        ensures
            final(self)@.file_open == old(self).spec_active(),
            final(self)@.out == old(self)@.out,
            final(self).spec_active() == old(self).spec_active(),
    {
        self.file_open = self.active;
        proof {
            assert(final(self)@.out =~= old(self)@.out);
        }
    }

    /// Hands the queued chunks out and clears the queue.
    pub fn take_output(&mut self) -> (r: Vec<String>)
        ensures
            r@.map(|i: int, s: String| s@) == old(self)@.out,
            final(self)@.out =~= Seq::<Seq<char>>::empty(),
            final(self)@.file_open == old(self)@.file_open,
            final(self).spec_active() == old(self).spec_active(),
    {
        let mut taken: Vec<String> = Vec::new();
        core::mem::swap(&mut taken, &mut self.out);
        proof {
            assert(final(self)@.out =~= Seq::<Seq<char>>::empty());
        }
        taken
    }

    /// Queued chunks, for inspection.
    pub fn get_output(&self) -> (r: &Vec<String>)
        ensures
            r@.map(|i: int, s: String| s@) == self@.out,
    {
        &self.out
    }

    fn append_chunk(&mut self, chunk: String)
        ensures
            final(self)@ == spec_logger_append(old(self)@, chunk@),
            final(self).spec_active() == old(self).spec_active(),
    {
        if self.file_open {
            self.out.push(chunk);
            proof {
                assert(final(self)@.out =~= old(self)@.out.push(chunk@));
            }
        }
    }

    /// Writes an internal success line.
    pub fn system_logn_success(&mut self, message: String)
        ensures
            final(self)@ == spec_logger_append(old(self)@, spec_sys_success_chunk(message@)),
            final(self).spec_active() == old(self).spec_active(),
    {
        let chunk = "\u{1b}[32mAPC_SUC: ".to_owned().concat(message.as_str()).concat(
            "\u{1b}[0m\n",
        );
        self.append_chunk(chunk);
    }

    /// Writes an internal error line.
    pub fn system_logn_error(&mut self, message: String)
        ensures
            final(self)@ == spec_logger_append(old(self)@, spec_sys_error_chunk(message@)),
            final(self).spec_active() == old(self).spec_active(),
    {
        let chunk = "\u{1b}[31mAPC_ERR: ".to_owned().concat(message.as_str()).concat(
            "\u{1b}[0m\n",
        );
        self.append_chunk(chunk);
    }

    /// Writes one guest log call: the prefix, every parameter coerced to
    /// text, and the suffix, as one chunk.
    pub fn log_parameters(&mut self, parameters: &Vec<Element>, start: &str, end: &str)
        ensures
            final(self)@ == spec_logger_append(
                old(self)@,
                spec_log_chunk(
                    start@,
                    parameters@.map(|i: int, e: Element| e@),
                    end@,
                ),
            ),
            final(self).spec_active() == old(self).spec_active(),
    {
        let ghost params = parameters@.map(|i: int, e: Element| e@);
        let mut chunk = start.to_owned();
        let mut i: usize = 0;
        while i < parameters.len()
            invariant
                0 <= i <= parameters@.len(),
                params == parameters@.map(|j: int, e: Element| e@),
                chunk@ == start@ + spec_params_text(params.take(i as int)),
            decreases parameters@.len() - i,
        {
            proof {
                assert(params.take(i as int) =~= params.take(i + 1).drop_last());
                assert(params.take(i + 1).last() == params[i as int]);
            }
            let piece = param_text(&parameters[i]);
            chunk.append(piece.as_str());
            i = i + 1;
        }
        proof {
            assert(params.take(i as int) =~= params);
        }
        chunk.append(end);
        self.append_chunk(chunk);
    }

    /// Guest log line, info level, no trailing newline.
    pub fn log_info(&mut self, parameters: &Vec<Element>)
        ensures
            final(self)@ == spec_logger_append(
                old(self)@,
                spec_log_chunk(
                    "\u{1b}[37mINF: "@,
                    parameters@.map(|i: int, e: Element| e@),
                    "\u{1b}[0m"@,
                ),
            ),
            final(self).spec_active() == old(self).spec_active(),
    {
        self.log_parameters(parameters, "\u{1b}[37mINF: ", "\u{1b}[0m");
    }

    /// Guest log line, info level, with trailing newline.
    pub fn logn_info(&mut self, parameters: &Vec<Element>)
        ensures
            final(self)@ == spec_logger_append(
                old(self)@,
                spec_log_chunk(
                    "\u{1b}[37mINF: "@,
                    parameters@.map(|i: int, e: Element| e@),
                    "\u{1b}[0m\n"@,
                ),
            ),
            final(self).spec_active() == old(self).spec_active(),
    {
        self.log_parameters(parameters, "\u{1b}[37mINF: ", "\u{1b}[0m\n");
    }

    /// Guest log line, success level, no trailing newline.
    pub fn log_success(&mut self, parameters: &Vec<Element>)
        ensures
            final(self)@ == spec_logger_append(
                old(self)@,
                spec_log_chunk(
                    "\u{1b}[32mSUC: "@,
                    parameters@.map(|i: int, e: Element| e@),
                    "\u{1b}[0m"@,
                ),
            ),
            final(self).spec_active() == old(self).spec_active(),
    {
        self.log_parameters(parameters, "\u{1b}[32mSUC: ", "\u{1b}[0m");
    }

    /// Guest log line, success level, with trailing newline.
    pub fn logn_success(&mut self, parameters: &Vec<Element>)
        ensures
            final(self)@ == spec_logger_append(
                old(self)@,
                spec_log_chunk(
                    "\u{1b}[32mSUC: "@,
                    parameters@.map(|i: int, e: Element| e@),
                    "\u{1b}[0m\n"@,
                ),
            ),
            final(self).spec_active() == old(self).spec_active(),
    {
        self.log_parameters(parameters, "\u{1b}[32mSUC: ", "\u{1b}[0m\n");
    }

    /// Guest log line, warning level, no trailing newline.
    pub fn log_warning(&mut self, parameters: &Vec<Element>)
        ensures
            final(self)@ == spec_logger_append(
                old(self)@,
                spec_log_chunk(
                    "\u{1b}[33mWRN: "@,
                    parameters@.map(|i: int, e: Element| e@),
                    "\u{1b}[0m"@,
                ),
            ),
            final(self).spec_active() == old(self).spec_active(),
    {
        self.log_parameters(parameters, "\u{1b}[33mWRN: ", "\u{1b}[0m");
    }

    /// Guest log line, warning level, with trailing newline.
    pub fn logn_warning(&mut self, parameters: &Vec<Element>)
        ensures
            final(self)@ == spec_logger_append(
                old(self)@,
                spec_log_chunk(
                    "\u{1b}[33mWRN: "@,
                    parameters@.map(|i: int, e: Element| e@),
                    "\u{1b}[0m\n"@,
                ),
            ),
            final(self).spec_active() == old(self).spec_active(),
    {
        self.log_parameters(parameters, "\u{1b}[33mWRN: ", "\u{1b}[0m\n");
    }

    /// Guest log line, error level, no trailing newline.
    pub fn log_error(&mut self, parameters: &Vec<Element>)
        ensures
            final(self)@ == spec_logger_append(
                old(self)@,
                spec_log_chunk(
                    "\u{1b}[31mERR: "@,
                    parameters@.map(|i: int, e: Element| e@),
                    "\u{1b}[0m"@,
                ),
            ),
            final(self).spec_active() == old(self).spec_active(),
    {
        self.log_parameters(parameters, "\u{1b}[31mERR: ", "\u{1b}[0m");
    }

    /// Guest log line, error level, with trailing newline.
    pub fn logn_error(&mut self, parameters: &Vec<Element>)
        ensures
            final(self)@ == spec_logger_append(
                old(self)@,
                spec_log_chunk(
                    "\u{1b}[31mERR: "@,
                    parameters@.map(|i: int, e: Element| e@),
                    "\u{1b}[0m\n"@,
                ),
            ),
            final(self).spec_active() == old(self).spec_active(),
    {
        self.log_parameters(parameters, "\u{1b}[31mERR: ", "\u{1b}[0m\n");
    }
}

/// Text of one parameter, executable form.
fn param_text(e: &Element) -> (r: String)
    ensures
        r@ == spec_param_text(e@),
{
    match e.get_value() {
        Value::Str(p) => crate::element::render_string_payload(p),
        _ => match e.get_value().auto_convert(ApicaTypeBytecode::String) {
            Some(Value::Str(p)) => crate::element::render_string_payload(&p),
            _ => "null".to_owned(),
        },
    }
}

} // verus!
