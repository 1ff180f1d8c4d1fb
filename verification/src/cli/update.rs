//! The `update` command.

use crate::engine::Operation;
use crate::kind::{all_kinds, ExtensionKind, Kind, ToolchainKind};
use crate::model::OperationView;
use vstd::prelude::*;

verus! {

/// The options of `update`, as typed.
#[derive(Debug, PartialEq, Eq)]
pub struct UpdateOpts {
    /// The toolchain to update.
    pub toolchain: Option<ToolchainKind>,
    /// The extension to update.
    pub extension: Option<ExtensionKind>,
    /// Force the update, ignoring existing installations and downloads.
    pub force: bool,
}

impl Default for UpdateOpts {
    fn default() -> (opts: UpdateOpts)
        ensures
            opts.toolchain is None,
            opts.extension is None,
            !opts.force,
    {
        UpdateOpts { toolchain: None, extension: None, force: false }
    }
}

/// The kinds that an update sees to, in order: every kind where none is named,
/// else the toolchain named and then the extension named.
pub open spec fn plan_of(opts: UpdateOpts) -> Seq<Kind> {
    match (opts.toolchain, opts.extension) {
        (None, None) => all_kinds(),
        (Some(t), None) => seq![Kind::Toolchain(t)],
        (None, Some(x)) => seq![Kind::Extension(x)],
        (Some(t), Some(x)) => seq![Kind::Toolchain(t), Kind::Extension(x)],
    }
}

/// Turns the options into the update that the engine is to begin.
pub fn handler(opts: UpdateOpts) -> (op: Operation)
    ensures
        op@ == (OperationView::Update { plan: plan_of(opts), force: opts.force }),
{
    let plan = if opts.toolchain.is_none() && opts.extension.is_none() {
        Kind::all()
    } else {
        let mut plan: Vec<Kind> = Vec::new();
        if let Some(t) = opts.toolchain {
            plan.push(Kind::Toolchain(t));
        }
        if let Some(x) = opts.extension {
            plan.push(Kind::Extension(x));
        }
        assert(plan@ =~= plan_of(opts));
        plan
    };
    Operation::Update { plan, force: opts.force }
}

} // verus!
