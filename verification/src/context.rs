//! The invoking user's identity and home directory, and placeholder
//! substitution for strings and paths.

use vstd::prelude::*;
use vstd::string::StringExecFns;

use crate::text::{join_slash, join_with_slash, replace_all, replaced, split_on_slash, split_slash,
    str_eq};

verus! {

/// Resolved identity information, captured once at startup.
///
/// The intended invariant, established by the environment lookup that
/// constructs one: both fields are non-empty (see [`Context::wf`]).
pub struct Context {
    pub user_name: String,
    pub home_dir: String,
}

/// The mathematical content of a [`Context`].
pub struct ContextV {
    pub user_name: Seq<char>,
    pub home_dir: Seq<char>,
}

impl View for Context {
    type V = ContextV;

    open spec fn view(&self) -> ContextV {
        ContextV { user_name: self.user_name@, home_dir: self.home_dir@ }
    }
}

/// `$USER` replaced by the user name, then `$HOME` by the home
/// directory, in that order; substitution is single-pass, never
/// re-expanding what a replacement introduced.
pub open spec fn spec_apply(ctx: ContextV, s: Seq<char>) -> Seq<char> {
    replaced(replaced(s, "$USER"@, ctx.user_name), "$HOME"@, ctx.home_dir)
}

/// One path component after resolution: a leading `~` component stands
/// for the home directory; every component then goes through
/// [`spec_apply`].
pub open spec fn resolved_component(ctx: ContextV, index: int, comp: Seq<char>) -> Seq<char> {
    if index == 0 && comp == seq!['~'] {
        spec_apply(ctx, ctx.home_dir)
    } else {
        spec_apply(ctx, comp)
    }
}

/// All components of `p`, resolved.
pub open spec fn resolved_components(ctx: ContextV, p: Seq<char>) -> Seq<Seq<char>> {
    split_slash(p).map(|i: int, comp: Seq<char>| resolved_component(ctx, i, comp))
}

/// A path rewritten component-wise and rejoined in original order.
pub open spec fn spec_apply_path(ctx: ContextV, p: Seq<char>) -> Seq<char> {
    join_slash(resolved_components(ctx, p))
}

impl Context {
    /// Both fields are non-empty.
    pub open spec fn wf(&self) -> bool {
        self.user_name@.len() > 0 && self.home_dir@.len() > 0
    }

    /// A context from already-resolved values. The environment lookup
    /// that feeds this checks that neither value is empty, so a
    /// constructed context is well formed.
    pub fn new(user_name: String, home_dir: String) -> (r: Context)
        requires
            user_name@.len() > 0,
            home_dir@.len() > 0,
        ensures
            r@.user_name == user_name@,
            r@.home_dir == home_dir@,
            r.wf(),
    {
        Context { user_name, home_dir }
    }

    /// Replaces every `$USER`, then every `$HOME`, in `s`.
    pub fn apply(&self, s: &str) -> (r: String)
        ensures
            r@ == spec_apply(self@, s@),
    {
        proof {
            reveal_strlit("$USER");
            reveal_strlit("$HOME");
        }
        let step = replace_all(s, "$USER", self.user_name.as_str());
        replace_all(step.as_str(), "$HOME", self.home_dir.as_str())
    }

    /// Rewrites a path component-wise: a first component that is exactly
    /// `~` is expanded to the home directory, every component is passed
    /// through [`Context::apply`], and the components are rejoined.
    pub fn apply_path(&self, path: &str) -> (r: String)
        ensures
            r@ == spec_apply_path(self@, path@),
    {
        let parts = split_on_slash(path);
        let mut out: Vec<String> = Vec::new();
        let mut i: usize = 0;
        while i < parts.len()
            invariant
                i <= parts.len(),
                parts.deep_view() == split_slash(path@),
                parts.len() == parts.deep_view().len(),
                out.deep_view() == resolved_components(self@, path@).take(i as int),
            decreases parts.len() - i,
        {
            let ghost out0 = out.deep_view();
            let comp = if i == 0 && str_eq(parts[0].as_str(), "~") {
                self.apply(self.home_dir.as_str())
            } else {
                self.apply(parts[i].as_str())
            };
            out.push(comp);
            proof {
                reveal_strlit("~");
                assert("~"@ =~= seq!['~']);
                assert(comp@ == resolved_component(self@, i as int, parts.deep_view()[i as int]));
                assert(resolved_components(self@, path@)[i as int] == resolved_component(
                    self@,
                    i as int,
                    split_slash(path@)[i as int],
                ));
                assert(resolved_components(self@, path@).len() == split_slash(path@).len());
                assert(out0.len() == i as int);
                assert(out@.len() == i + 1);
                assert(out.deep_view().len() == i + 1);
                assert forall|k: int| 0 <= k < i + 1 implies out.deep_view()[k]
                    == resolved_components(self@, path@).take(i + 1)[k] by {
                    if k < i {
                        assert(out.deep_view()[k] == out0[k]);
                        assert(out0[k] == resolved_components(self@, path@)[k]);
                    } else {
                        assert(out.deep_view()[k] == comp@);
                    }
                }
                assert(out.deep_view() =~= resolved_components(self@, path@).take(i + 1));
            }
            i += 1;
        }
        proof {
            assert(resolved_components(self@, path@).take(i as int) =~= resolved_components(
                self@,
                path@,
            ));
        }
        join_with_slash(&out)
    }
}

} // verus!
