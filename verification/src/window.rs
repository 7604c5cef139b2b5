//! The window adapter of the runtime.
//!
//! The checks and coercions of the two window builtins live here, in
//! verified code, against a model of the window: whether one is bound, its
//! title and its resizability. The host around the library binds the real
//! window and applies the recorded state to it after each tick.

use vstd::prelude::*;
use crate::element::{ElemModel, Element};
use crate::tags::ApicaTypeBytecode;
use crate::value::{spec_convert, spec_render_str, Value, ValueModel};

verus! {

/// Mathematical model of the window adapter.
pub struct WindowModel {
    pub bound: bool,
    pub title: Seq<char>,
    pub resizable: bool,
}

/// The window adapter after a guest `SetTitle` call, and whether the call
/// was accepted. An empty parameter list is rejected; a parameter that does
/// not coerce to `String` is accepted and ignored; without a bound window
/// the title is not recorded.
pub open spec fn spec_window_set_title(w: WindowModel, params: Seq<ElemModel>) -> (
    WindowModel,
    bool,
) {
    if params.len() == 0 {
        (w, false)
    } else {
        match spec_convert(params[0].value, ApicaTypeBytecode::String) {
            Some(ValueModel::Str(p)) => {
                if w.bound {
                    (WindowModel { bound: w.bound, title: spec_render_str(p), resizable: w.resizable }, true)
                } else {
                    (w, true)
                }
            },
            _ => (w, true),
        }
    }
}

/// The window adapter after a guest `SetResizable` call, and whether the
/// call was accepted: it needs a parameter that coerces to a set `Bool`
/// payload and a bound window.
pub open spec fn spec_window_set_resizable(w: WindowModel, params: Seq<ElemModel>) -> (
    WindowModel,
    bool,
) {
    if params.len() == 0 {
        (w, false)
    } else {
        match spec_convert(params[0].value, ApicaTypeBytecode::Bool) {
            Some(ValueModel::Bool(Some(x))) => {
                if w.bound {
                    (WindowModel { bound: w.bound, title: w.title, resizable: x }, true)
                } else {
                    (w, false)
                }
            },
            _ => (w, false),
        }
    }
}

/// The window adapter.
pub struct WindowSystem {
    bound: bool,
    title: String,
    resizable: bool,
}

impl View for WindowSystem {
    type V = WindowModel;

    closed spec fn view(&self) -> WindowModel {
        WindowModel { bound: self.bound, title: self.title@, resizable: self.resizable }
    }
}

impl WindowSystem {
    /// A fresh adapter with no window bound.
    pub fn init() -> (r: WindowSystem)
        ensures
            r@.bound == false,
            r@.title =~= Seq::<char>::empty(),
            r@.resizable == true,
    {
        WindowSystem { bound: false, title: String::new(), resizable: true }
    }

    /// Marks a real window as bound. The host calls this when the window
    /// of the event loop exists.
    pub fn bind_window(&mut self)
        ensures
            final(self)@ == (WindowModel {
                bound: true,
                title: old(self)@.title,
                resizable: old(self)@.resizable,
            }),
    {
        self.bound = true;
    }

    /// Recorded title, for the host to apply.
    pub fn get_title(&self) -> (r: &String)
        ensures
            r@ == self@.title,
    {
        &self.title
    }

    /// Recorded resizability, for the host to apply.
    pub fn get_resizable(&self) -> (r: bool)
        ensures
            r == self@.resizable,
    {
        self.resizable
    }

    /// Sets the title directly; a no-op while no window is bound.
    pub fn system_set_title(&mut self, title: &str)
        ensures
            old(self)@.bound ==> final(self)@ == (WindowModel {
                bound: old(self)@.bound,
                title: title@,
                resizable: old(self)@.resizable,
            }),
            !old(self)@.bound ==> final(self)@ == old(self)@,
    {
        if self.bound {
            self.title = title.to_owned();
        }
    }

    /// The guest `SetTitle` builtin: coerces the first parameter to
    /// `String` and records it.
    pub fn set_title(&mut self, parameters: &Vec<Element>) -> (r: bool)
        ensures
            (final(self)@, r) == spec_window_set_title(
                old(self)@,
                parameters@.map(|i: int, e: Element| e@),
            ),
    {
        if parameters.len() == 0 {
            return false;
        }
        match parameters[0].get_value().auto_convert(ApicaTypeBytecode::String) {
            Some(Value::Str(p)) => {
                let text = crate::element::render_string_payload(&p);
                self.system_set_title(text.as_str());
                true
            },
            _ => true,
        }
    }

    /// The guest `SetResizable` builtin: coerces the first parameter to
    /// `Bool` and records it; it fails without a bound window or a set
    /// payload.
    pub fn set_resizable(&mut self, parameters: &Vec<Element>) -> (r: bool)
        ensures
            (final(self)@, r) == spec_window_set_resizable(
                old(self)@,
                parameters@.map(|i: int, e: Element| e@),
            ),
    {
        if parameters.len() == 0 {
            return false;
        }
        match parameters[0].get_value().auto_convert(ApicaTypeBytecode::Bool) {
            Some(Value::Bool(Some(x))) => {
                if self.bound {
                    self.resizable = x;
                    true
                } else {
                    false
                }
            },
            _ => false,
        }
    }
}

} // verus!
