//! Chains of endpoints: the output of each stage is the input of the next.
use super::external::{check_invocation, is_refusal, may_run};
use crate::error::{error_text, format_error};
use crate::manifest::{file_named, input_view, FileSpec, InputModel, Manifest};
use crate::registry::ToolResult;
use crate::text::opt_view;
use vstd::prelude::*;

verus! {

/// A chain of endpoints that is being run.
#[derive(Debug)]
pub struct PipeRun {
    /// The stages, in order.
    pub stages: Vec<String>,
    /// How many stages have run.
    pub done: usize,
    /// The output of the last stage that ran, or the input of the chain.
    pub data: Vec<u8>,
}

/// What a chain does next.
#[derive(Debug)]
pub enum PipeStep {
    /// Nothing more: this is the result.
    Finished(ToolResult),
    /// Run the handler of a stage with the data on its standard input.
    Run { endpoint: String, handler: String, state_file: Option<String> },
}

/// What the stage of a chain runs.
pub open spec fn stage_handler(files: Seq<FileSpec>, stage: Seq<char>) -> Option<Seq<char>> {
    match file_named(files, stage) {
        None => None,
        Some(f) => opt_view(f.handler),
    }
}

/// What input the stage of a chain takes.
pub open spec fn stage_schema(files: Seq<FileSpec>, stage: Seq<char>) -> Option<InputModel> {
    match file_named(files, stage) {
        None => None,
        Some(f) => input_view(f.input),
    }
}

impl PipeRun {
    /// No more stages have run than there are.
    pub open spec fn wf(&self) -> bool {
        self.done <= self.stages@.len()
    }

    /// A chain before its first stage.
    pub fn new(stages: Vec<String>, input: Vec<u8>) -> (r: Self)
        ensures
            r.wf(),
            r.stages == stages,
            r.done == 0,
            r.data == input,
    {
        PipeRun { stages, done: 0, data: input }
    }

    /// What the chain does next. After its last stage it ends with the data. A stage
    /// without a handler ends it with an error, and so does a stage that does not
    /// take the data.
    pub fn next(&self, manifest: &Manifest) -> (r: PipeStep)
        requires
            self.wf(),
        ensures
            ({
                let files = manifest.files@;
                if self.done == self.stages@.len() {
                    r matches PipeStep::Finished(t) && t.gives(self.data@)
                } else {
                    let stage = self.stages@[self.done as int]@;
                    if stage_handler(files, stage) is None {
                        r matches PipeStep::Finished(t) && t.fails(
                            error_text("SPAWN"@, "no handler for pipeline stage '"@ + stage + "'"@),
                        )
                    } else if !may_run(self.data@, stage_schema(files, stage)) {
                        r matches PipeStep::Finished(t) && is_refusal(
                            self.data@,
                            stage_schema(files, stage),
                            t,
                        )
                    } else {
                        r matches PipeStep::Run { endpoint, handler, state_file } && endpoint@
                            == stage && Some(handler@) == stage_handler(files, stage)
                            && opt_view(state_file) == opt_view(
                            file_named(files, stage)->0.state_file,
                        )
                    }
                }
            }),
    {
        if self.done == self.stages.len() {
            let data = self.data.clone();
            proof {
                assert(data@ =~= self.data@);
            }
            return PipeStep::Finished(ToolResult::ok(data));
        }
        let stage = &self.stages[self.done];
        let spec = manifest.spec_for(stage);
        let handler: Option<String> = match spec {
            None => None,
            Some(f) => f.handler.clone(),
        };
        match (spec, handler) {
            (Some(f), Some(h)) => {
                match check_invocation(self.data.as_slice(), f.input.as_ref()) {
                    Some(t) => PipeStep::Finished(t),
                    None => PipeStep::Run {
                        endpoint: stage.clone(),
                        handler: h,
                        state_file: f.state_file.clone(),
                    },
                }
            },
            _ => {
                let mut m = "no handler for pipeline stage '".to_string();
                m.push_str(stage);
                m.push_str("'");
                PipeStep::Finished(ToolResult::err(format_error("SPAWN", &m)))
            },
        }
    }

    /// Takes the result of a stage. An error ends the chain and is its result, an
    /// output becomes the input of the next stage.
    pub fn advance(&mut self, result: ToolResult) -> (r: Option<ToolResult>)
        requires
            old(self).wf(),
            old(self).done < old(self).stages@.len(),
        ensures
            final(self).wf(),
            final(self).stages == old(self).stages,
            match r {
                Some(t) => result.error is Some && t == result && *final(self) == *old(self),
                None => result.error is None && final(self).done == old(self).done + 1
                    && final(self).data == result.output,
            },
    {
        if result.is_error() {
            return Some(result);
        }
        self.data = result.output;
        if self.done < self.stages.len() {
            self.done = self.done + 1;
        }
        None
    }
}

} // verus!
