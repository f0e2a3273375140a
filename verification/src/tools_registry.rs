//! The capability registry: a name-keyed collection of registered
//! capabilities.
//!
//! Each entry carries the capability's name, its callback policy (whether
//! results are fed back to the model for another turn) and its self-reported
//! definition as JSON text. Re-registering a name overwrites the previous
//! entry in place — last registration wins. Listing definitions silently
//! omits entries whose definition text does not have the expected schema
//! shape. Execution itself is dispatched by the embedding program; the
//! registry only answers lookups.

use vstd::prelude::*;
use crate::dtos::{Tool, ToolView};
use crate::errors::AgentError;
use crate::json_response::{spec_parse_tool_doc, tool_from_json};
use crate::text::str_eq;

verus! {

/// One registered capability.
#[derive(Debug)]
pub struct RegisteredTool {
    pub name: String,
    /// Whether this capability's results are fed back for another model turn.
    pub callback: bool,
    /// The capability's self-reported definition, as JSON text.
    pub description: String,
}

pub ghost struct RegisteredToolView {
    pub name: Seq<char>,
    pub callback: bool,
    pub description: Seq<char>,
}

impl View for RegisteredTool {
    type V = RegisteredToolView;

    open spec fn view(&self) -> RegisteredToolView {
        RegisteredToolView {
            name: self.name@,
            callback: self.callback,
            description: self.description@,
        }
    }
}

impl Clone for RegisteredTool {
    fn clone(&self) -> (r: Self)
        ensures
            r@ == self@,
    {
        RegisteredTool {
            name: self.name.clone(),
            callback: self.callback,
            description: self.description.clone(),
        }
    }
}

/// No two entries share a name.
pub open spec fn names_unique(ts: Seq<RegisteredToolView>) -> bool {
    forall|i: int, j: int| 0 <= i < j < ts.len() ==> ts[i].name != ts[j].name
}

/// Whether some entry is registered under `name`.
pub open spec fn spec_has_tool(ts: Seq<RegisteredToolView>, name: Seq<char>) -> bool {
    exists|k: int| 0 <= k < ts.len() && ts[k].name == name
}

/// The callback policy of the first entry registered under `name`; entries
/// built through [`ToolRegistry::register`] have unique names, so the first
/// match is the only one.
pub open spec fn spec_callback_of(ts: Seq<RegisteredToolView>, name: Seq<char>) -> Option<bool>
    decreases ts.len(),
{
    if ts.len() == 0 {
        None
    } else if ts[0].name == name {
        Some(ts[0].callback)
    } else {
        spec_callback_of(ts.drop_first(), name)
    }
}

pub proof fn lemma_callback_of_at(ts: Seq<RegisteredToolView>, name: Seq<char>, k: int)
    requires
        0 <= k < ts.len(),
        ts[k].name == name,
        forall|j: int| 0 <= j < k ==> ts[j].name != name,
    ensures
        spec_callback_of(ts, name) == Some(ts[k].callback),
    decreases ts.len(),
{
    if k > 0 {
        lemma_callback_of_at(ts.drop_first(), name, k - 1);
    }
}

pub proof fn lemma_callback_of_absent(ts: Seq<RegisteredToolView>, name: Seq<char>)
    requires
        forall|j: int| 0 <= j < ts.len() ==> ts[j].name != name,
    ensures
        spec_callback_of(ts, name) is None,
    decreases ts.len(),
{
    if ts.len() > 0 {
        lemma_callback_of_absent(ts.drop_first(), name);
    }
}

/// The schema forms of the registered capabilities, in registration order,
/// silently omitting entries whose definition text fails the shape check.
pub open spec fn spec_definitions(ts: Seq<RegisteredToolView>) -> Seq<ToolView>
    decreases ts.len(),
{
    if ts.len() == 0 {
        Seq::empty()
    } else {
        spec_definitions(ts.drop_last()) + (match spec_parse_tool_doc(ts.last().description) {
            Some(t) => seq![t],
            None => Seq::<ToolView>::empty(),
        })
    }
}

/// The name-keyed collection of capabilities.
#[derive(Debug)]
pub struct ToolRegistry {
    pub tools: Vec<RegisteredTool>,
}

impl View for ToolRegistry {
    type V = Seq<RegisteredToolView>;

    open spec fn view(&self) -> Seq<RegisteredToolView> {
        Seq::new(self.tools@.len(), |i: int| self.tools@[i]@)
    }
}

impl Clone for ToolRegistry {
    fn clone(&self) -> (r: Self)
        ensures
            r@ == self@,
    {
        let mut ts: Vec<RegisteredTool> = Vec::new();
        let mut i: usize = 0;
        while i < self.tools.len()
            invariant
                i <= self.tools@.len(),
                ts@.len() == i,
                forall|j: int| 0 <= j < i ==> ts@[j]@ == #[trigger] self.tools@[j]@,
            decreases self.tools@.len() - i,
        {
            ts.push(self.tools[i].clone());
            i = i + 1;
        }
        let r = ToolRegistry { tools: ts };
        proof {
            assert(r@ =~= self@);
        }
        r
    }
}

impl ToolRegistry {
    /// An empty registry.
    pub fn new() -> (r: Self)
        ensures
            r@ == Seq::<RegisteredToolView>::empty(),
            names_unique(r@),
    {
        let r = ToolRegistry { tools: Vec::new() };
        proof {
            assert(r@ =~= Seq::<RegisteredToolView>::empty());
        }
        r
    }

    /// The index of the entry registered under `name`.
    fn find(&self, name: &str) -> (r: Option<usize>)
        ensures
            r matches Some(k) ==> k < self@.len() && self@[k as int].name == name@ && (forall|
                j: int,
            |
                0 <= j < k ==> self@[j].name != name@),
            r is None ==> !spec_has_tool(self@, name@),
    {
        let mut i: usize = 0;
        while i < self.tools.len()
            invariant
                i <= self.tools@.len(),
                forall|j: int| 0 <= j < i ==> #[trigger] self@[j].name != name@,
            decreases self.tools@.len() - i,
        {
            if str_eq(self.tools[i].name.as_str(), name) {
                return Some(i);
            }
            i = i + 1;
        }
        None
    }

    /// Registers a capability under `name`. Re-registering an existing name
    /// overwrites the previous entry — last registration wins.
    pub fn register(&mut self, name: String, callback: bool, description: String)
        requires
            names_unique(old(self)@),
        ensures
            names_unique(final(self)@),
            spec_has_tool(old(self)@, name@) ==> exists|k: int|
                0 <= k < old(self)@.len() && old(self)@[k].name == name@ && final(self)@ == old(
                    self,
                )@.update(
                    k,
                    RegisteredToolView { name: name@, callback: callback, description: description@ },
                ),
            !spec_has_tool(old(self)@, name@) ==> final(self)@ == old(self)@.push(
                RegisteredToolView { name: name@, callback: callback, description: description@ },
            ),
    {
        let entry = RegisteredTool { name: name, callback: callback, description: description };
        match self.find(entry.name.as_str()) {
            Some(k) => {
                let ghost pre = self@;
                self.tools.set(k, entry);
                proof {
                    assert(self@ =~= pre.update(k as int, self@[k as int]));
                    assert forall|i: int, j: int| 0 <= i < j < self@.len() implies self@[i].name
                        != self@[j].name by {
                        assert(pre[i].name != pre[j].name);
                    }
                }
            },
            None => {
                let ghost pre = self@;
                self.tools.push(entry);
                proof {
                    assert(self@ =~= pre.push(self@[self@.len() - 1]));
                    assert forall|i: int, j: int| 0 <= i < j < self@.len() implies self@[i].name
                        != self@[j].name by {
                        if j < pre.len() {
                            assert(pre[i].name != pre[j].name);
                        } else {
                            assert(!spec_has_tool(pre, self@[j].name));
                            assert(pre[i].name != self@[j].name);
                        }
                    }
                }
            },
        }
    }

    /// Whether results of the capability registered under `name` are fed
    /// back to the model. Unknown names fail with a Capability error.
    pub fn check_tool_callback(&self, tool_name: &str) -> (r: Result<bool, AgentError>)
        ensures
            r matches Ok(b) ==> spec_callback_of(self@, tool_name@) == Some(b),
            r is Err <==> spec_callback_of(self@, tool_name@) is None,
            r is Err <==> !spec_has_tool(self@, tool_name@),
            r matches Err(e) ==> e matches AgentError::Capability(m) && m@ == "Tool '"@ + tool_name@
                + "' not found"@,
    {
        match self.find(tool_name) {
            Some(k) => {
                proof {
                    lemma_callback_of_at(self@, tool_name@, k as int);
                }
                Ok(self.tools[k].callback)
            },
            None => {
                proof {
                    assert forall|j: int| 0 <= j < self@.len() implies self@[j].name
                        != tool_name@ by {
                        assert(!spec_has_tool(self@, tool_name@));
                    }
                    lemma_callback_of_absent(self@, tool_name@);
                }
                let mut m = String::from_str("Tool '");
                m.append(tool_name);
                m.append("' not found");
                Err(AgentError::Capability(m))
            },
        }
    }

    /// The schema form of every registered capability whose definition text
    /// has the expected shape; malformed definitions are silently omitted.
    pub fn get_tool_definitions(&self) -> (r: Vec<Tool>)
        ensures
            Seq::new(r@.len(), |i: int| r@[i]@) == spec_definitions(self@),
    {
        let mut out: Vec<Tool> = Vec::new();
        let mut i: usize = 0;
        while i < self.tools.len()
            invariant
                i <= self.tools@.len(),
                Seq::new(out@.len(), |k: int| out@[k]@) == spec_definitions(
                    self@.subrange(0, i as int),
                ),
            decreases self.tools@.len() - i,
        {
            let ghost pre = Seq::new(out@.len(), |k: int| out@[k]@);
            match tool_from_json(self.tools[i].description.as_str()) {
                Some(t) => {
                    out.push(t);
                    proof {
                        assert(Seq::new(out@.len(), |k: int| out@[k]@) =~= pre.push(
                            out@[out@.len() - 1]@,
                        ));
                    }
                },
                None => {},
            }
            i = i + 1;
            proof {
                assert(self@.subrange(0, i as int).drop_last() =~= self@.subrange(0, i as int - 1));
                assert(self@.subrange(0, i as int).last() == self@[i as int - 1]);
                assert(Seq::new(out@.len(), |k: int| out@[k]@) =~= spec_definitions(
                    self@.subrange(0, i as int),
                ));
            }
        }
        proof {
            assert(self@.subrange(0, self@.len() as int) =~= self@);
        }
        out
    }

    /// The number of registered capabilities.
    pub fn len(&self) -> (r: usize)
        ensures
            r == self@.len(),
    {
        self.tools.len()
    }
}

} // verus!
