//! The hooks a config can set, one command (of type `C`) per hook.

use vstd::prelude::*;

verus! {

/// When a hook runs.
#[derive(Debug, Clone, Copy, PartialEq, Eq)]
pub enum HookType {
    PostCreate,
    PostStart,
    PostSwitch,
    PreCommit,
    PreMerge,
    PostMerge,
    PreRemove,
    PostRemove,
}

/// The hooks shared by user and project configs: each optional.
#[derive(Debug, Clone)]
pub struct HooksConfig<C> {
    pub post_create: Option<C>,
    pub post_start: Option<C>,
    pub post_switch: Option<C>,
    pub pre_commit: Option<C>,
    pub pre_merge: Option<C>,
    pub post_merge: Option<C>,
    pub pre_remove: Option<C>,
    pub post_remove: Option<C>,
}

/// The slot of `hooks` that `hook` names.
pub open spec fn hook_slot<C>(hooks: HooksConfig<C>, hook: HookType) -> Option<C> {
    match hook {
        HookType::PostCreate => hooks.post_create,
        HookType::PostStart => hooks.post_start,
        HookType::PostSwitch => hooks.post_switch,
        HookType::PreCommit => hooks.pre_commit,
        HookType::PreMerge => hooks.pre_merge,
        HookType::PostMerge => hooks.post_merge,
        HookType::PreRemove => hooks.pre_remove,
        HookType::PostRemove => hooks.post_remove,
    }
}

impl<C> HooksConfig<C> {
    /// The command configured for `hook`, if any.
    pub fn get(&self, hook: HookType) -> (r: Option<&C>)
        ensures
            match hook_slot(*self, hook) {
                Some(c) => r matches Some(x) && *x == c,
                None => r is None,
            },
    {
        match hook {
            HookType::PostCreate => self.post_create.as_ref(),
            HookType::PostStart => self.post_start.as_ref(),
            HookType::PostSwitch => self.post_switch.as_ref(),
            HookType::PreCommit => self.pre_commit.as_ref(),
            HookType::PreMerge => self.pre_merge.as_ref(),
            HookType::PostMerge => self.post_merge.as_ref(),
            HookType::PreRemove => self.pre_remove.as_ref(),
            HookType::PostRemove => self.post_remove.as_ref(),
        }
    }
}


/// Each hook type reads the field of its own name: `get(PostMerge)` is
/// `post_merge`, `get(PreRemove)` is `pre_remove`, and so on for all eight.
pub proof fn lemma_each_hook_reads_its_own_field<C>(hooks: HooksConfig<C>)
    ensures
        hook_slot(hooks, HookType::PostCreate) == hooks.post_create,
        hook_slot(hooks, HookType::PostStart) == hooks.post_start,
        hook_slot(hooks, HookType::PostSwitch) == hooks.post_switch,
        hook_slot(hooks, HookType::PreCommit) == hooks.pre_commit,
        hook_slot(hooks, HookType::PreMerge) == hooks.pre_merge,
        hook_slot(hooks, HookType::PostMerge) == hooks.post_merge,
        hook_slot(hooks, HookType::PreRemove) == hooks.pre_remove,
        hook_slot(hooks, HookType::PostRemove) == hooks.post_remove,
{
}

} // verus!
