//! A tool that gives its input back.
use crate::manifest::Manifest;
use crate::registry::session::SessionState;
use crate::registry::{
    Invocation, Session, SessionStore, Tool, ToolModel, ToolResult,
};
use crate::split::views;
use vstd::prelude::*;

verus! {

/// Minimal tool for testing: echoes input back as output.
pub struct EchoTool;

/// The document on the tool.
pub const ECHO_HOW_TO: &'static str = "# echo

Write anything to `send` and read it back.

## Example

```bash
echo \"hello livefolders\" > /tools/echo/send
cat /tools/echo/send
# → hello livefolders
```
";

impl Tool for EchoTool {
    open spec fn model(&self) -> ToolModel {
        ToolModel {
            name: "echo"@,
            description: "Echoes input back. Useful for testing LiveFolders is working."@,
            how_to: ECHO_HOW_TO@,
            endpoints: seq!["send"@],
        }
    }

    open spec fn updates(
        &self,
        endpoint: Seq<char>,
        input: Seq<u8>,
        session: Session,
        states: Seq<SessionState>,
    ) -> Seq<SessionState> {
        states
    }

    open spec fn answers(
        &self,
        endpoint: Seq<char>,
        input: Seq<u8>,
        manifest: Option<&Manifest>,
        r: Invocation,
    ) -> bool {
        r matches Invocation::Done(t) && t.gives(input)
    }

    fn name(&self) -> (r: &str) {
        "echo"
    }

    fn description(&self) -> (r: &str) {
        "Echoes input back. Useful for testing LiveFolders is working."
    }

    fn how_to(&self) -> (r: &str) {
        ECHO_HOW_TO
    }

    fn endpoints(&self) -> (r: Vec<String>) {
        let mut out: Vec<String> = Vec::new();
        out.push("send".to_string());
        proof {
            assert(views(out@) =~= seq!["send"@]);
        }
        out
    }

    fn invoke(
        &self,
        endpoint: &str,
        input: &[u8],
        session: Session,
        sessions: &mut SessionStore,
        manifest: Option<&Manifest>,
    ) -> (r: Invocation) {
        let mut output: Vec<u8> = Vec::new();
        output.extend_from_slice(input);
        proof {
            assert(output@ =~= input@);
        }
        Invocation::Done(ToolResult::ok(output))
    }
}

} // verus!
