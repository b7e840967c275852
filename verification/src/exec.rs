//! The commands that run a service.

use crate::collections::clone_optional;
use vstd::prelude::*;

verus! {

/// The commands that a runtime makes for a service, for a platform to run.
///
/// A host service has a `start` and perhaps a `stop`; a container service may
/// have all four.
#[derive(Debug)]
pub struct ExecSet {
    /// The main process.
    pub start: String,
    /// Run before the main process.
    pub pre_start: Option<String>,
    /// Run to stop the main process.
    pub stop: Option<String>,
    /// Run after the main process has stopped.
    pub post_stop: Option<String>,
}

#[verifier::ext_equal]
pub struct ExecSetView {
    pub start: Seq<char>,
    pub pre_start: Option<Seq<char>>,
    pub stop: Option<Seq<char>>,
    pub post_stop: Option<Seq<char>>,
}

impl View for ExecSet {
    type V = ExecSetView;

    open spec fn view(&self) -> ExecSetView {
        ExecSetView {
            start: self.start@,
            pre_start: self.pre_start.deep_view(),
            stop: self.stop.deep_view(),
            post_stop: self.post_stop.deep_view(),
        }
    }
}

impl DeepView for ExecSet {
    type V = ExecSetView;

    open spec fn deep_view(&self) -> ExecSetView {
        self@
    }
}

impl Clone for ExecSet {
    fn clone(&self) -> (r: Self)
        ensures
            r@ == self@,
    {
        ExecSet {
            start: self.start.clone(),
            pre_start: clone_optional(&self.pre_start),
            stop: clone_optional(&self.stop),
            post_stop: clone_optional(&self.post_stop),
        }
    }
}

impl Default for ExecSet {
    fn default() -> (r: Self)
        ensures
            r@ == (ExecSetView {
                start: Seq::empty(),
                pre_start: None,
                stop: None,
                post_stop: None,
            }),
    {
        ExecSet { start: String::new(), pre_start: None, stop: None, post_stop: None }
    }
}

} // verus!
