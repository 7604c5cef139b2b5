//! The runtime object: the rights machine sequencing the lifecycle over
//! the reader, evaluator and host adapters.
//!
//! The host around the library owns the event loop: it forwards key
//! events, performs the file reads a load request asks for, applies the
//! recorded window state and drains the log queue. One `update_system`
//! call runs exactly one lifecycle step.

use vstd::prelude::*;
use crate::context::{wf_ctx, CtxModel};
use crate::element::ElemModel;
use crate::eval_spec::{eval_node, spec_top_log, with_logger, StateModel, EVAL_NONE, LOOP_BUDGET};
use crate::evaluator::{st_of, EvaluatorSystem};
use crate::inputs::{wf_inputs, InputsModel, InputsSystem};
use crate::logger::{spec_logger_append, spec_sys_error_chunk, LoggerModel, LoggerSystem};
use crate::nodes::NodeModel;
use crate::reader::{
    empty_program, logger_extends, program_entry, spec_decode_stream, BytecodeReaderSystem,
    ProgramModel,
};
use crate::rights::{
    spec_has_right, RightsModel, RightSystem, APP_RIGHT, MAIN_MENU_RIGHT,
    RIGHTS_MAIN_MENU,
};
use crate::tags::ApicaEntrypointBytecode;
use crate::window::{WindowModel, WindowSystem};
use crate::ApicaMode;

verus! {

/// What the host must do after a lifecycle step.
#[derive(Clone, Copy, PartialEq, Eq, Structural, Debug)]
pub enum TickAction {
    Idle,
    LoadMainMenu,
}

/// The state of one entrypoint run, before and after.
pub open spec fn spec_run_entry(
    ns: Seq<NodeModel>,
    st: StateModel,
) -> StateModel {
    let o = eval_node(NodeModel::Compound(ns), EVAL_NONE, st, LOOP_BUDGET as nat);
    with_logger(o.st, spec_top_log(o.elem, o.st.logger))
}

/// The whole runtime.
pub struct ApicaSystem {
    rights: RightSystem,
    reader: BytecodeReaderSystem,
    logger: LoggerSystem,
    evaluator: EvaluatorSystem,
    window: WindowSystem,
    inputs: InputsSystem,
}

impl ApicaSystem {
    /// The lifecycle state.
    pub closed spec fn rights_model(&self) -> RightsModel {
        self.rights@
    }

    /// The loaded program.
    pub closed spec fn prog_model(&self) -> ProgramModel {
        self.reader.prog()
    }

    /// The log queue.
    pub closed spec fn logger_model(&self) -> LoggerModel {
        self.logger@
    }

    /// The lexical environment.
    pub closed spec fn ctx_model(&self) -> CtxModel {
        self.evaluator.ctx()
    }

    /// The window adapter's state.
    pub closed spec fn window_model(&self) -> WindowModel {
        self.window@
    }

    /// The input table.
    pub closed spec fn inputs_model(&self) -> InputsModel {
        self.inputs@
    }

    /// The evaluation state the runtime currently embodies.
    pub open spec fn state_model(&self) -> StateModel {
        st_of(
            self.ctx_model(),
            self.logger_model(),
            self.rights_model(),
            self.window_model(),
            self.inputs_model(),
        )
    }

    /// The structural well-formedness every operation preserves: the
    /// environment and input table are well formed and the logging sink
    /// stays activated, so every app load opens a log file.
    pub open spec fn wf(&self) -> bool {
        &&& wf_ctx(self.ctx_model())
        &&& wf_inputs(self.inputs_model())
        &&& self.logger_model().active
    }

    /// A fresh runtime: special pre-init mode, main-menu rights, logging
    /// on, nothing loaded.
    pub fn init() -> (r: ApicaSystem)
        ensures
            r.wf(),
            r.rights_model() == (RightsModel {
                mode: ApicaMode::SpecialInit,
                right: RIGHTS_MAIN_MENU,
            }),
            r.prog_model() == empty_program(),
            r.logger_model().out =~= Seq::<Seq<char>>::empty(),
    {
        ApicaSystem {
            rights: RightSystem::init(),
            reader: BytecodeReaderSystem::init(),
            logger: LoggerSystem::init(true),
            evaluator: EvaluatorSystem::init(),
            window: WindowSystem::init(),
            inputs: InputsSystem::init(),
        }
    }

    /// The runtime halts exactly when the special quit state is reached.
    pub fn is_running(&self) -> (r: bool)
        ensures
            r == (self.rights_model().mode != ApicaMode::SpecialQuit),
    {
        self.rights.is_running()
    }

    /// A guarded quit request, forwarded to the rights machine.
    pub fn quit_app(&mut self)
        requires
            old(self).wf(),
        ensures
            final(self).wf(),
            final(self).rights_model().right == old(self).rights_model().right,
            spec_has_right(old(self).rights_model().right, APP_RIGHT) ==> final(self)
                .rights_model().mode == ApicaMode::Quit,
            !spec_has_right(old(self).rights_model().right, APP_RIGHT) ==> final(self)
                .rights_model().mode == old(self).rights_model().mode,
            final(self).prog_model() == old(self).prog_model(),
            final(self).logger_model() == old(self).logger_model(),
            final(self).ctx_model() == old(self).ctx_model(),
            final(self).window_model() == old(self).window_model(),
            final(self).inputs_model() == old(self).inputs_model(),
    {
        self.rights.quit_app();
    }

    /// Key events and tracking, forwarded to the input table.
    pub fn track_key(&mut self, code: u32)
        requires
            old(self).wf(),
        ensures
            final(self).wf(),
    {
        self.inputs.track_key(code);
    }

    /// Ingests one key event between ticks.
    pub fn handle_key_event(&mut self, code: u32, pressed: bool)
        requires
            old(self).wf(),
        ensures
            final(self).wf(),
            final(self).inputs_model() == crate::inputs::spec_handle_key(
                old(self).inputs_model(),
                code,
                pressed,
            ),
    {
        self.inputs.handle_key_event(code, pressed);
    }

    /// Marks the host's window as bound.
    pub fn bind_window(&mut self)
        requires
            old(self).wf(),
        ensures
            final(self).wf(),
    {
        self.window.bind_window();
    }

    /// Recorded window title, for the host to apply.
    pub fn window_title(&self) -> (r: &String)
        ensures
            r@ == self.window_model().title,
    {
        self.window.get_title()
    }

    /// Recorded window resizability, for the host to apply.
    pub fn window_resizable(&self) -> (r: bool)
        ensures
            r == self.window_model().resizable,
    {
        self.window.get_resizable()
    }

    /// Hands the queued log chunks out, for the host to write.
    pub fn take_log_output(&mut self) -> (r: Vec<String>)
        requires
            old(self).wf(),
        ensures
            final(self).wf(),
            r@.map(|i: int, s: String| s@) == old(self).logger_model().out,
    {
        self.logger.take_output()
    }

    /// Loads an app image: with the app right held, the environment is
    /// reset, the app's log file is opened and the image decoded; a
    /// missing image is reported instead. Without the right nothing
    /// happens.
    pub fn load_app(&mut self, app_name: &str, contents: Option<&Vec<u8>>)
        requires
            old(self).wf(),
        ensures
            final(self).wf(),
            final(self).rights_model() == old(self).rights_model(),
            !spec_has_right(old(self).rights_model().right, APP_RIGHT) ==> final(self)
                .state_model() == old(self).state_model() && final(self).prog_model() == old(
                self,
            ).prog_model(),
            spec_has_right(old(self).rights_model().right, APP_RIGHT) ==> {
                &&& final(self).ctx_model() =~~= seq![
                    Seq::<(Seq<char>, ElemModel)>::empty(),
                ]
                &&& final(self).prog_model() == match contents {
                    Some(data) => spec_decode_stream(data@, 0, empty_program()),
                    None => empty_program(),
                }
                &&& final(self).logger_model().file_open
                &&& old(self).logger_model().out.is_prefix_of(
                    final(self).logger_model().out,
                )
            },
            final(self).window_model() == old(self).window_model(),
            final(self).inputs_model() == old(self).inputs_model(),
    {
        if !self.rights.has_right(APP_RIGHT) {
            return ;
        }
        self.evaluator.clear_data();
        self.logger.create_file_for(app_name);
        match contents {
            Some(data) => {
                self.reader.read_app(data, &mut self.logger);
            },
            None => {
                self.reader.clear_nodes();
                let message = "Failed to find or open APB file named -> ".to_owned().concat(
                    app_name,
                );
                self.logger.system_logn_error(message);
                proof {
                    let prev = old(self).logger_model().out;
                    let now = final(self).logger_model().out;
                    assert(prev =~= now.subrange(0, prev.len() as int));
                }
            },
        }
        proof {
            let prev = old(self).logger_model().out;
            let now = final(self).logger_model().out;
            assert(prev =~= now.subrange(0, prev.len() as int));
        }
    }

    /// One lifecycle step: runs the current mode's entrypoint and advances
    /// the mode, returning what the host must do next.
    pub fn update_system(&mut self) -> (r: TickAction)
        requires
            old(self).wf(),
        ensures
            final(self).wf(),
            old(self).rights_model().mode == ApicaMode::SpecialQuit ==> final(self)
                .state_model() == old(self).state_model() && final(self).prog_model() == old(
                self,
            ).prog_model() && r == TickAction::Idle,
            old(self).rights_model().mode == ApicaMode::SpecialInit ==> r
                == TickAction::LoadMainMenu && final(self).rights_model() == (RightsModel {
                mode: ApicaMode::Init,
                right: old(self).rights_model().right,
            }) && final(self).prog_model() == old(self).prog_model() && final(self).logger_model()
                == old(self).logger_model() && final(self).ctx_model() == old(self).ctx_model(),
            old(self).rights_model().mode == ApicaMode::Init ==> r == TickAction::Idle && (
            match program_entry(old(self).prog_model(), ApicaEntrypointBytecode::Init) {
                Some(ns) => {
                    let st1 = spec_run_entry(ns, old(self).state_model());
                    final(self).state_model() == (StateModel {
                        rights: RightsModel {
                            mode: ApicaMode::Update,
                            right: st1.rights.right,
                        },
                        ctx: st1.ctx,
                        logger: st1.logger,
                        window: st1.window,
                        inputs: st1.inputs,
                    })
                },
                None => final(self).state_model() == (StateModel {
                    rights: RightsModel {
                        mode: ApicaMode::Update,
                        right: old(self).rights_model().right,
                    },
                    ctx: old(self).ctx_model(),
                    logger: spec_logger_append(
                        old(self).logger_model(),
                        spec_sys_error_chunk(
                            "Failed to load the init entrypoint of the app"@,
                        ),
                    ),
                    window: old(self).window_model(),
                    inputs: old(self).inputs_model(),
                }),
            }) && final(self).prog_model() == old(self).prog_model(),
            old(self).rights_model().mode == ApicaMode::Update ==> r == TickAction::Idle && (
            match program_entry(old(self).prog_model(), ApicaEntrypointBytecode::Update) {
                Some(ns) => final(self).state_model() == spec_run_entry(
                    ns,
                    old(self).state_model(),
                ),
                None => final(self).state_model() == (StateModel {
                    rights: RightsModel {
                        mode: ApicaMode::Quit,
                        right: old(self).rights_model().right,
                    },
                    ctx: old(self).ctx_model(),
                    logger: spec_logger_append(
                        old(self).logger_model(),
                        spec_sys_error_chunk(
                            "Failed to load the update entrypoint of the app"@,
                        ),
                    ),
                    window: old(self).window_model(),
                    inputs: old(self).inputs_model(),
                }),
            }) && final(self).prog_model() == old(self).prog_model(),
            old(self).rights_model().mode == ApicaMode::Quit ==> {
                let mid = match program_entry(
                    old(self).prog_model(),
                    ApicaEntrypointBytecode::Quit,
                ) {
                    Some(ns) => spec_run_entry(ns, old(self).state_model()),
                    None => with_logger(
                        old(self).state_model(),
                        spec_logger_append(
                            old(self).logger_model(),
                            spec_sys_error_chunk(
                                "Failed to load the quit entrypoint of the app"@,
                            ),
                        ),
                    ),
                };
                if spec_has_right(mid.rights.right, MAIN_MENU_RIGHT) {
                    r == TickAction::Idle && final(self).rights_model() == (RightsModel {
                        mode: ApicaMode::SpecialQuit,
                        right: mid.rights.right,
                    }) && final(self).ctx_model() == mid.ctx && final(self).logger_model()
                        == mid.logger
                } else if spec_has_right(mid.rights.right, APP_RIGHT) {
                    r == TickAction::LoadMainMenu && final(self).rights_model() == (RightsModel {
                        mode: ApicaMode::Init,
                        right: RIGHTS_MAIN_MENU,
                    }) && final(self).ctx_model() == mid.ctx && final(self).logger_model()
                        == mid.logger
                } else {
                    r == TickAction::Idle && final(self).state_model() == (StateModel {
                        rights: mid.rights,
                        ctx: mid.ctx,
                        logger: mid.logger,
                        window: mid.window,
                        inputs: mid.inputs,
                    })
                }
            },
    {
        let mode = *self.rights.get_mode();
        match mode {
            ApicaMode::SpecialQuit => TickAction::Idle,
            ApicaMode::SpecialInit => {
                self.rights.set_mode(ApicaMode::Init);
                TickAction::LoadMainMenu
            },
            ApicaMode::Init => {
                match self.reader.get_entry_node(ApicaEntrypointBytecode::Init) {
                    Some(init_node) => {
                        self.evaluator.evaluate(
                            init_node,
                            &mut self.logger,
                            &mut self.rights,
                            &mut self.window,
                            &self.inputs,
                        );
                        proof {
                            crate::laws::lemma_eval_frame(
                                NodeModel::Compound(
                                    crate::nodes::nodes_model(init_node.nodes@),
                                ),
                                EVAL_NONE,
                                old(self).state_model(),
                                LOOP_BUDGET as nat,
                            );
                        }
                    },
                    None => {
                        self.logger.system_logn_error(
                            "Failed to load the init entrypoint of the app".to_owned(),
                        );
                    },
                }
                self.rights.set_mode(ApicaMode::Update);
                TickAction::Idle
            },
            ApicaMode::Update => {
                match self.reader.get_entry_node(ApicaEntrypointBytecode::Update) {
                    Some(update_node) => {
                        self.evaluator.evaluate(
                            update_node,
                            &mut self.logger,
                            &mut self.rights,
                            &mut self.window,
                            &self.inputs,
                        );
                        proof {
                            crate::laws::lemma_eval_frame(
                                NodeModel::Compound(
                                    crate::nodes::nodes_model(update_node.nodes@),
                                ),
                                EVAL_NONE,
                                old(self).state_model(),
                                LOOP_BUDGET as nat,
                            );
                        }
                    },
                    None => {
                        self.rights.set_mode(ApicaMode::Quit);
                        self.logger.system_logn_error(
                            "Failed to load the update entrypoint of the app".to_owned(),
                        );
                    },
                }
                TickAction::Idle
            },
            ApicaMode::Quit => {
                match self.reader.get_entry_node(ApicaEntrypointBytecode::Quit) {
                    Some(quit_node) => {
                        self.evaluator.evaluate(
                            quit_node,
                            &mut self.logger,
                            &mut self.rights,
                            &mut self.window,
                            &self.inputs,
                        );
                        proof {
                            crate::laws::lemma_eval_frame(
                                NodeModel::Compound(
                                    crate::nodes::nodes_model(quit_node.nodes@),
                                ),
                                EVAL_NONE,
                                old(self).state_model(),
                                LOOP_BUDGET as nat,
                            );
                        }
                    },
                    None => {
                        self.logger.system_logn_error(
                            "Failed to load the quit entrypoint of the app".to_owned(),
                        );
                    },
                }
                if self.rights.has_right(MAIN_MENU_RIGHT) {
                    self.rights.set_mode(ApicaMode::SpecialQuit);
                    TickAction::Idle
                } else if self.rights.has_right(APP_RIGHT) {
                    self.rights.set_mode(ApicaMode::Init);
                    self.rights.set_right(RIGHTS_MAIN_MENU);
                    TickAction::LoadMainMenu
                } else {
                    TickAction::Idle
                }
            },
        }
    }
}

} // verus!
