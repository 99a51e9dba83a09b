//! The course of an installation: what has to be done next, from what came before.
use crate::installer::{
    answered_value, ask_secret, installed_name, installed_notice, means_yes, missing_subdir,
    overwrite_question, place_tool, secret_question, InstallPlan, Placement,
};
use crate::manifest::{EnvDecl, Manifest};
use crate::paths::join_text;
use crate::split::trim;
use vstd::prelude::*;

verus! {

/// What an installation waits for.
#[derive(Clone, Copy, Debug, PartialEq, Eq, Structural)]
pub enum Phase {
    /// The tarball to be downloaded and unpacked.
    Download,
    /// The manifest of the tool.
    Manifest,
    /// Whether the secret of the declaration with this number is there.
    Looking(usize),
    /// The value of the secret of the declaration with this number.
    Answering(usize),
    /// The secret of the declaration with this number to be stored.
    Storing(usize),
    /// Whether there is a tool of the same name.
    Placing,
    /// Whether that tool may be overwritten.
    Confirming,
    /// That tool to be removed.
    Removing,
    /// The tool to be copied.
    Copying,
    /// Nothing more.
    Over,
}

/// What happened.
#[derive(Debug)]
pub enum InstallEvent {
    /// The tarball was unpacked. It has a top-level directory or not, and in it the
    /// directory of the tool is there or not.
    Unpacked { top_level: bool, found: bool },
    /// The manifest was read.
    Manifest(Option<Manifest>),
    /// What was looked for is there or not.
    Seen(bool),
    /// A question was answered.
    Answer(String),
    /// What had to be done is done.
    Done,
    /// What had to be done failed.
    Failed(String),
}

/// What has to be done next.
#[derive(Debug)]
pub enum InstallAction {
    /// Nothing: what happened was not waited for.
    Nothing,
    /// Read the manifest of the tool.
    ReadManifest,
    /// Look whether there is a secret of this name.
    LookForSecret(String),
    /// Ask this question.
    Ask(String),
    /// Store a secret.
    StoreSecret { name: String, value: String },
    /// Look whether there is something at this place.
    LookAt(String),
    /// Remove the directory at this place.
    Remove(String),
    /// Copy the tool to this place.
    Copy(String),
    /// End, and say this.
    Finish(String),
    /// End, and say what is wrong.
    Fail(String),
}

/// An installation under way.
#[derive(Debug)]
pub struct Installation {
    pub plan: InstallPlan,
    pub manifest: Option<Manifest>,
    pub phase: Phase,
}

/// The variables that a manifest declares.
pub open spec fn declared_env(m: Option<Manifest>) -> Seq<EnvDecl> {
    match m {
        None => seq![],
        Some(m) => m.env@,
    }
}

/// The number of the first required variable from the `i`th on.
pub open spec fn next_required(env: Seq<EnvDecl>, i: int) -> int
    decreases env.len() - i,
{
    if 0 <= i < env.len() && !env[i].required {
        next_required(env, i + 1)
    } else {
        i
    }
}

impl Installation {
    /// Where the tool goes.
    pub open spec fn dest(&self) -> Seq<char> {
        join_text(self.plan.tools_dir@, installed_name(self.manifest, self.plan.source@))
    }

    /// Whether an installation went on to the first secret from the `i`th on that is
    /// required, or where there is none, to its place.
    pub open spec fn looks_from(&self, i: int, a: InstallAction) -> bool {
        let env = declared_env(self.manifest);
        let j = next_required(env, i);
        if j < env.len() {
            self.phase == Phase::Looking(j as usize) && (a matches InstallAction::LookForSecret(n)
                && n@ == env[j].name@)
        } else {
            self.phase == Phase::Placing && (a matches InstallAction::LookAt(d) && d@
                == self.dest())
        }
    }

    /// Whether an installation ended with a message.
    pub open spec fn failed(&self, a: InstallAction, m: Seq<char>) -> bool {
        self.phase == Phase::Over && (a matches InstallAction::Fail(t) && t@ == m)
    }

    /// Whether what is waited for makes sense: it is about a declared variable, and only
    /// required ones are looked for.
    pub open spec fn wf(&self) -> bool {
        match self.phase {
            Phase::Looking(i) => i < declared_env(self.manifest).len() && declared_env(
                self.manifest,
            )[i as int].required,
            Phase::Answering(i) => i < declared_env(self.manifest).len(),
            Phase::Storing(i) => i < declared_env(self.manifest).len(),
            _ => true,
        }
    }

    /// Whether `after` and `a` are what has to follow from an event. Every required
    /// secret that is not there is asked for, in the order of the declarations, and
    /// stored where the answer holds a value. A tool of the same name is removed only
    /// where the answer says so.
    pub open spec fn follows(
        &self,
        event: InstallEvent,
        after: Installation,
        a: InstallAction,
    ) -> bool {
        let env = declared_env(self.manifest);
        &&& after.plan == self.plan
        &&& !(self.phase == Phase::Manifest && event is Manifest) ==> after.manifest
            == self.manifest
        &&& match (self.phase, event) {
            (Phase::Over, _) => after.phase == Phase::Over && a is Nothing,
            (_, InstallEvent::Failed(m)) => after.failed(a, m@),
            (Phase::Download, InstallEvent::Unpacked { top_level, found }) => if !top_level {
                after.failed(a, "unexpected tarball structure: no top-level directory"@)
            } else if self.plan.source.subdir is Some && !found {
                after.failed(
                    a,
                    "subdir '"@ + self.plan.source.subdir->0@ + "' not found in repository"@,
                )
            } else {
                after.phase == Phase::Manifest && a is ReadManifest
            },
            (Phase::Manifest, InstallEvent::Manifest(m)) => after.manifest == m
                && after.looks_from(0, a),
            (Phase::Looking(i), InstallEvent::Seen(there)) => if there {
                after.looks_from(i + 1, a)
            } else {
                after.phase == Phase::Answering(i) && (a matches InstallAction::Ask(q) && q@
                    == secret_question(env[i as int]))
            },
            (Phase::Answering(i), InstallEvent::Answer(t)) => if trim(t@).len() == 0 {
                after.looks_from(i + 1, a)
            } else {
                after.phase == Phase::Storing(i) && (a matches InstallAction::StoreSecret {
                    name,
                    value,
                } && name@ == env[i as int].name@ && value@ == trim(t@))
            },
            (Phase::Storing(i), InstallEvent::Done) => after.looks_from(i + 1, a),
            (Phase::Placing, InstallEvent::Seen(there)) => if there {
                after.phase == Phase::Confirming && (a matches InstallAction::Ask(q) && q@
                    == "Tool '"@ + installed_name(self.manifest, self.plan.source@)
                    + "' already exists. Overwrite? [y/N]: "@)
            } else {
                after.phase == Phase::Copying && (a matches InstallAction::Copy(d) && d@
                    == self.dest())
            },
            (Phase::Confirming, InstallEvent::Answer(t)) => if trim(t@) == "y"@ || trim(t@)
                == "Y"@ {
                after.phase == Phase::Removing && (a matches InstallAction::Remove(d) && d@
                    == self.dest())
            } else {
                after.phase == Phase::Over && (a matches InstallAction::Finish(m) && m@
                    == "Aborted."@)
            },
            (Phase::Removing, InstallEvent::Done) => after.phase == Phase::Copying && (
            a matches InstallAction::Copy(d) && d@ == self.dest()),
            (Phase::Copying, InstallEvent::Done) => after.phase == Phase::Over && (
            a matches InstallAction::Finish(m) && m@ == "Installed "@ + installed_name(
                self.manifest,
                self.plan.source@,
            ) + " → "@ + self.dest()
                + "\nRun `livefolders mount` to start using it (or it will appear automatically if already mounted)."@),
            _ => after.phase == self.phase && a is Nothing,
        }
    }

    /// An installation that waits for its tarball.
    pub fn new(plan: InstallPlan) -> (r: Self)
        ensures
            r.wf(),
            r.plan == plan,
            r.manifest is None,
            r.phase == Phase::Download,
    {
        Installation { plan, manifest: None, phase: Phase::Download }
    }

    /// The name of the tool and where it goes.
    fn placement(&self) -> (r: Placement)
        ensures
            r.tool_name@ == installed_name(self.manifest, self.plan.source@),
            r.dest@ == self.dest(),
    {
        place_tool(&self.plan, self.manifest.as_ref())
    }

    fn fail(&mut self, m: String) -> (a: InstallAction)
        ensures
            final(self).plan == old(self).plan,
            final(self).manifest == old(self).manifest,
            final(self).failed(a, m@),
            final(self).wf(),
    {
        self.phase = Phase::Over;
        InstallAction::Fail(m)
    }

    fn copy(&mut self) -> (a: InstallAction)
        ensures
            final(self).plan == old(self).plan,
            final(self).manifest == old(self).manifest,
            final(self).phase == Phase::Copying,
            final(self).wf(),
            a matches InstallAction::Copy(d) && d@ == old(self).dest(),
    {
        let p = self.placement();
        self.phase = Phase::Copying;
        InstallAction::Copy(p.dest)
    }

    /// The number behind that of a declaration.
    fn after(&self, i: usize) -> (r: usize)
        requires
            i < declared_env(self.manifest).len(),
        ensures
            r == i + 1,
    {
        match &self.manifest {
            None => 0,
            Some(m) => {
                let n: usize = m.env.len();
                i + 1
            },
        }
    }

    /// Goes on to the first secret from the `from`th declaration on that is required,
    /// or where there is none, to the place of the tool.
    fn look_from(&mut self, from: usize) -> (a: InstallAction)
        requires
            from <= declared_env(old(self).manifest).len(),
        ensures
            final(self).plan == old(self).plan,
            final(self).manifest == old(self).manifest,
            final(self).wf(),
            final(self).looks_from(from as int, a),
    {
        let mut i: usize = from;
        if let Some(m) = &self.manifest {
            while i < m.env.len() && !m.env[i].required
                invariant
                    from <= i <= m.env@.len(),
                    next_required(m.env@, from as int) == next_required(m.env@, i as int),
                decreases m.env@.len() - i,
            {
                i = i + 1;
            }
            if i < m.env.len() {
                let name = m.env[i].name.clone();
                self.phase = Phase::Looking(i);
                return InstallAction::LookForSecret(name);
            }
        }
        let p = self.placement();
        self.phase = Phase::Placing;
        InstallAction::LookAt(p.dest)
    }

    /// Takes in what happened: what has to be done next.
    pub fn advance(&mut self, event: InstallEvent) -> (a: InstallAction)
        requires
            old(self).wf(),
        ensures
            final(self).wf(),
            old(self).follows(event, *final(self), a),
    {
        match (self.phase, event) {
            (Phase::Over, _) => InstallAction::Nothing,
            (_, InstallEvent::Failed(m)) => self.fail(m),
            (Phase::Download, InstallEvent::Unpacked { top_level, found }) => {
                if !top_level {
                    return self.fail(
                        "unexpected tarball structure: no top-level directory".to_string(),
                    );
                }
                if let Some(sub) = &self.plan.source.subdir {
                    if !found {
                        let m = missing_subdir(sub);
                        return self.fail(m);
                    }
                }
                self.phase = Phase::Manifest;
                InstallAction::ReadManifest
            },
            (Phase::Manifest, InstallEvent::Manifest(m)) => {
                self.manifest = m;
                self.look_from(0)
            },
            (Phase::Looking(i), InstallEvent::Seen(there)) => {
                if there {
                    return self.look_from(self.after(i));
                }
                let question: Option<String> = match &self.manifest {
                    None => None,
                    Some(m) => ask_secret(&m.env[i], false),
                };
                match question {
                    None => self.look_from(self.after(i)),
                    Some(q) => {
                        self.phase = Phase::Answering(i);
                        InstallAction::Ask(q)
                    },
                }
            },
            (Phase::Answering(i), InstallEvent::Answer(t)) => match answered_value(&t) {
                None => self.look_from(self.after(i)),
                Some(value) => {
                    let name = match &self.manifest {
                        None => "".to_string(),
                        Some(m) => m.env[i].name.clone(),
                    };
                    self.phase = Phase::Storing(i);
                    InstallAction::StoreSecret { name, value }
                },
            },
            (Phase::Storing(i), InstallEvent::Done) => self.look_from(self.after(i)),
            (Phase::Placing, InstallEvent::Seen(there)) => {
                if !there {
                    return self.copy();
                }
                let p = self.placement();
                self.phase = Phase::Confirming;
                InstallAction::Ask(overwrite_question(&p.tool_name))
            },
            (Phase::Confirming, InstallEvent::Answer(t)) => {
                if means_yes(&t) {
                    let p = self.placement();
                    self.phase = Phase::Removing;
                    InstallAction::Remove(p.dest)
                } else {
                    self.phase = Phase::Over;
                    InstallAction::Finish("Aborted.".to_string())
                }
            },
            (Phase::Removing, InstallEvent::Done) => self.copy(),
            (Phase::Copying, InstallEvent::Done) => {
                let p = self.placement();
                self.phase = Phase::Over;
                InstallAction::Finish(installed_notice(&p))
            },
            _ => InstallAction::Nothing,
        }
    }
}

/// A tool that is there is left alone unless its owner says so: a directory is removed
/// only after a question to that end was answered with yes, and a tool is copied only to
/// a place where nothing was found or from which everything was removed.
pub proof fn nothing_is_overwritten_unasked(
    before: Installation,
    event: InstallEvent,
    after: Installation,
    a: InstallAction,
)
    requires
        before.follows(event, after, a),
    ensures
        a is Remove ==> before.phase == Phase::Confirming && (event matches InstallEvent::Answer(t)
            && (trim(t@) == "y"@ || trim(t@) == "Y"@)),
        after.phase == Phase::Confirming && before.phase != Phase::Confirming ==> before.phase
            == Phase::Placing && (a matches InstallAction::Ask(_)),
        a is Copy ==> (before.phase == Phase::Placing && event == InstallEvent::Seen(false)) || (
        before.phase == Phase::Removing && event is Done),
        a is StoreSecret ==> before.phase is Answering,
{
}

/// No required secret is passed over: those between a declaration and the next one that
/// is looked for are not required, and that one is.
pub proof fn no_required_secret_is_passed_over(env: Seq<EnvDecl>, i: int)
    requires
        0 <= i <= env.len(),
    ensures
        i <= next_required(env, i) <= env.len(),
        forall|j: int| i <= j < next_required(env, i) ==> !(#[trigger] env[j]).required,
        next_required(env, i) < env.len() ==> env[next_required(env, i)].required,
    decreases env.len() - i,
{
    if i < env.len() && !env[i].required {
        no_required_secret_is_passed_over(env, i + 1);
    }
}

} // verus!
