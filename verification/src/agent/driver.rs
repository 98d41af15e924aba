//! What a driver keeps for its sessions: what the user has granted, which tools are loaded, and
//! which preset a session runs under.
use vstd::prelude::*;
use vstd::string::*;

use crate::agent::exec::ActionClass;
use crate::preset;
use crate::preset::{AgentPreset, PresetFeatures, PresetView};
use crate::text;
use crate::text::str_eq;

verus! {

/// What is noted for each session, whatever the order and however often.
spec fn marked<T: View>(items: Seq<(String, T)>) -> Set<(Seq<char>, T::V)> {
    Set::new(
        |mark: (Seq<char>, T::V)|
            exists|i: int|
                0 <= i < items.len() && (#[trigger] items[i]).0@ == mark.0 && items[i].1@ == mark.1,
    )
}

/// What is noted for the other sessions.
spec fn for_others<V>(marks: Set<(Seq<char>, V)>, session: Seq<char>) -> Set<(Seq<char>, V)> {
    marks.filter(|mark: (Seq<char>, V)| mark.0 != session)
}

proof fn lemma_marked<T: View>(items: Seq<(String, T)>, session: Seq<char>, what: T::V)
    ensures
        forall|item: (String, T)|
            item.0@ == session && item.1@ == what ==> #[trigger] marked(items.push(item)) == marked(
                items,
            ).insert((session, what)),
{
    assert forall|item: (String, T)| item.0@ == session && item.1@ == what implies #[trigger] marked(
        items.push(item),
    ) == marked(items).insert((session, what)) by {
        let longer = items.push(item);
        assert forall|mark: (Seq<char>, T::V)|
            marked(items).insert((session, what)).contains(mark) implies marked(longer).contains(
            mark,
        ) by {
            if marked(items).contains(mark) {
                let i = choose|i: int|
                    0 <= i < items.len() && (#[trigger] items[i]).0@ == mark.0 && items[i].1@
                        == mark.1;
                assert(longer[i] == items[i]);
            } else {
                assert(longer[items.len() as int] == item);
            }
        }
        assert forall|mark: (Seq<char>, T::V)| marked(longer).contains(mark) implies marked(
            items,
        ).insert((session, what)).contains(mark) by {
            let i = choose|i: int|
                0 <= i < longer.len() && (#[trigger] longer[i]).0@ == mark.0 && longer[i].1@
                    == mark.1;
            if i < items.len() {
                assert(items[i] == longer[i]);
            }
        }
        assert(marked(longer) =~= marked(items).insert((session, what)));
    }
}

proof fn lemma_unmarked<T: View>(items: Seq<(String, T)>, at: int, session: Seq<char>)
    requires
        0 <= at < items.len(),
        items[at].0@ == session,
    ensures
        for_others(marked(items.remove(at)), session) == for_others(marked(items), session),
{
    let shorter = items.remove(at);
    let rest = for_others(marked(shorter), session);
    let all = for_others(marked(items), session);
    assert forall|mark: (Seq<char>, T::V)| rest.contains(mark) implies all.contains(mark) by {
        let i = choose|i: int|
            0 <= i < shorter.len() && (#[trigger] shorter[i]).0@ == mark.0 && shorter[i].1@ == mark.1;
        let from = if i < at {
            i
        } else {
            i + 1
        };
        assert(items[from] == shorter[i]);
    }
    assert forall|mark: (Seq<char>, T::V)| all.contains(mark) implies rest.contains(mark) by {
        let i = choose|i: int|
            0 <= i < items.len() && (#[trigger] items[i]).0@ == mark.0 && items[i].1@ == mark.1;
        let to = if i < at {
            i
        } else {
            i - 1
        };
        assert(shorter[to] == items[i]);
    }
    assert(rest =~= all);
}

/// Takes out all that is noted for a session.
fn forget<T: View>(items: &mut Vec<(String, T)>, session_id: &str)
    ensures
        marked(final(items)@) == for_others(marked(old(items)@), session_id@),
{
    let ghost all = for_others(marked(items@), session_id@);
    let mut i: usize = 0;
    while i < items.len()
        invariant
            i <= items@.len(),
            for_others(marked(items@), session_id@) == all,
            forall|j: int| 0 <= j < i ==> (#[trigger] items@[j]).0@ != session_id@,
        decreases items@.len() - i,
    {
        if str_eq(items[i].0.as_str(), session_id) {
            let ghost before = items@;
            items.remove(i);
            proof {
                lemma_unmarked(before, i as int, session_id@);
                assert(items@ == before.remove(i as int));
            }
        } else {
            i += 1;
        }
    }
    assert(marked(items@) =~= all);
}

/// What the user has granted for the rest of a session, so that they are not asked again.
#[derive(Debug)]
pub struct AskGrants {
    granted: Vec<(String, ActionClass)>,
}

impl View for AskGrants {
    type V = Set<(Seq<char>, ActionClass)>;

    closed spec fn view(&self) -> Set<(Seq<char>, ActionClass)> {
        marked(self.granted@)
    }
}

impl Default for AskGrants {
    fn default() -> (grants: Self)
        ensures
            grants@ == Set::<(Seq<char>, ActionClass)>::empty(),
    {
        let grants = AskGrants { granted: Vec::new() };
        assert(grants@ =~= Set::empty());
        grants
    }
}

impl AskGrants {
    /// Whether the user has granted actions of a class in a session.
    pub fn ask_granted(&self, session_id: &str, class: ActionClass) -> (yes: bool)
        ensures
            yes == self@.contains((session_id@, class)),
    {
        let mut i: usize = 0;
        while i < self.granted.len()
            invariant
                i <= self.granted@.len(),
                forall|j: int|
                    0 <= j < i ==> !((#[trigger] self.granted@[j]).0@ == session_id@
                        && self.granted@[j].1 == class),
            decreases self.granted@.len() - i,
        {
            if str_eq(self.granted[i].0.as_str(), session_id) && self.granted[i].1 == class {
                assert(self.granted@[i as int].0@ == session_id@);
                return true;
            }
            i += 1;
        }
        false
    }

    /// Grants actions of a class for the rest of a session.
    pub fn grant_ask_class(&mut self, session_id: &str, class: ActionClass)
        ensures
            final(self)@ == old(self)@.insert((session_id@, class)),
    {
        proof {
            lemma_marked(self.granted@, session_id@, class);
        }
        self.granted.push((session_id.to_owned(), class));
    }

    /// Takes back all that was granted in a session.
    pub fn clear_ask_grants(&mut self, session_id: &str)
        ensures
            final(self)@ == old(self)@.filter(
                |grant: (Seq<char>, ActionClass)| grant.0 != session_id@,
            ),
    {
        forget(&mut self.granted, session_id);
    }
}

/// The tools of outside servers that are loaded with their parameters, session by session. A tool
/// that is not loaded is offered by its name and description alone.
#[derive(Debug)]
pub struct McpLoads {
    loaded: Vec<(String, String)>,
}

impl View for McpLoads {
    type V = Set<(Seq<char>, Seq<char>)>;

    closed spec fn view(&self) -> Set<(Seq<char>, Seq<char>)> {
        marked(self.loaded@)
    }
}

impl Default for McpLoads {
    fn default() -> (loads: Self)
        ensures
            loads@ == Set::<(Seq<char>, Seq<char>)>::empty(),
    {
        let loads = McpLoads { loaded: Vec::new() };
        assert(loads@ =~= Set::empty());
        loads
    }
}

impl McpLoads {
    /// Whether a tool is loaded in a session.
    pub fn mcp_loaded(&self, session_id: &str, qualified: &str) -> (yes: bool)
        ensures
            yes == self@.contains((session_id@, qualified@)),
    {
        let mut i: usize = 0;
        while i < self.loaded.len()
            invariant
                i <= self.loaded@.len(),
                forall|j: int|
                    0 <= j < i ==> !((#[trigger] self.loaded@[j]).0@ == session_id@
                        && self.loaded@[j].1@ == qualified@),
            decreases self.loaded@.len() - i,
        {
            if str_eq(self.loaded[i].0.as_str(), session_id) && str_eq(
                self.loaded[i].1.as_str(),
                qualified,
            ) {
                assert(self.loaded@[i as int].0@ == session_id@);
                return true;
            }
            i += 1;
        }
        false
    }

    /// Loads a tool in a session. To load it twice changes nothing.
    pub fn load_mcp_tool(&mut self, session_id: &str, qualified: &str)
        ensures
            final(self)@ == old(self)@.insert((session_id@, qualified@)),
    {
        proof {
            lemma_marked(self.loaded@, session_id@, qualified@);
        }
        self.loaded.push((session_id.to_owned(), qualified.to_owned()));
    }

    /// Unloads all tools of a session.
    pub fn clear_mcp_loads(&mut self, session_id: &str)
        ensures
            final(self)@ == old(self)@.filter(
                |entry: (Seq<char>, Seq<char>)| entry.0 != session_id@,
            ),
    {
        forget(&mut self.loaded, session_id);
    }
}

/// Where the presets come from. A preset that was deleted or whose file is broken is not found.
pub trait AgentPresetSource {
    /// The preset under an id, if there is one.
    spec fn preset_under(&self, id: Seq<char>) -> Option<PresetView>;

    /// The id of the preset of a session that chose none.
    spec fn usual_id(&self) -> Seq<char>;

    fn resolve(&self, id: &str) -> (found: Option<AgentPreset>)
        ensures
            self.preset_under(id@) == (match found {
                Some(preset) => Some(preset@),
                None => None::<PresetView>,
            }),
    ;

    fn default_id(&self) -> (id: String)
        ensures
            id@ == self.usual_id(),
    ;
}

/// The presets of a deployment.
pub struct PresetRoster {
    pub presets: Vec<AgentPreset>,
    pub default_preset: String,
}

/// The first preset under an id.
pub open spec fn first_under(presets: Seq<PresetView>, id: Seq<char>, from: int) -> Option<PresetView>
    decreases presets.len() - from,
{
    if from < 0 || from >= presets.len() {
        None
    } else if presets[from].id == id {
        Some(presets[from])
    } else {
        first_under(presets, id, from + 1)
    }
}

impl AgentPresetSource for PresetRoster {
    open spec fn preset_under(&self, id: Seq<char>) -> Option<PresetView> {
        first_under(preset::preset_views(self.presets@), id, 0)
    }

    open spec fn usual_id(&self) -> Seq<char> {
        self.default_preset@
    }

    fn resolve(&self, id: &str) -> (found: Option<AgentPreset>) {
        let ghost all = preset::preset_views(self.presets@);
        let mut i: usize = 0;
        while i < self.presets.len()
            invariant
                i <= self.presets@.len(),
                all == preset::preset_views(self.presets@),
                first_under(all, id@, 0) == first_under(all, id@, i as int),
            decreases self.presets@.len() - i,
        {
            if str_eq(self.presets[i].id.as_str(), id) {
                return Some(self.presets[i].clone());
            }
            i += 1;
        }
        None
    }

    fn default_id(&self) -> (id: String) {
        self.default_preset.clone()
    }
}

/// The preset that a session runs under: the one that it chose, or else, and where that is gone, the
/// usual one. Without presets there is none.
pub open spec fn chosen_preset<S: AgentPresetSource>(source: Option<&S>, chosen: Option<Seq<char>>) -> Option<
    PresetView,
> {
    match source {
        Some(source) => {
            let requested = match chosen {
                Some(id) => id,
                None => source.usual_id(),
            };
            match source.preset_under(requested) {
                Some(preset) => Some(preset),
                None => source.preset_under(source.usual_id()),
            }
        },
        None => None,
    }
}

/// The preset that a session runs under.
pub fn preset_for<S: AgentPresetSource>(source: Option<&S>, session_preset: Option<&str>) -> (found: Option<
    AgentPreset,
>)
    ensures
        chosen_preset(source, text::opt_str_view(session_preset)) == (match found {
            Some(preset) => Some(preset@),
            None => None::<PresetView>,
        }),
{
    match source {
        Some(source) => {
            let requested = match session_preset {
                Some(id) => id.to_owned(),
                None => source.default_id(),
            };
            match source.resolve(requested.as_str()) {
                Some(preset) => Some(preset),
                None => {
                    let usual = source.default_id();
                    source.resolve(usual.as_str())
                },
            }
        },
        None => None,
    }
}

/// The features of the preset that a session runs under; all of them where there is none.
pub fn preset_features<S: AgentPresetSource>(source: Option<&S>, session_preset: Option<&str>) -> (features:
    PresetFeatures)
    ensures
        features == (match chosen_preset(source, text::opt_str_view(session_preset)) {
            Some(preset) => preset.features,
            None => preset::all_features(true),
        }),
{
    match preset_for(source, session_preset) {
        Some(preset) => preset.features,
        None => PresetFeatures::default(),
    }
}

/// A session whose preset is gone runs under the usual one.
pub proof fn missing_preset_falls_back<S: AgentPresetSource>(source: &S, id: Seq<char>)
    requires
        source.preset_under(id) is None,
    ensures
        chosen_preset(Some(source), Some(id)) == source.preset_under(source.usual_id()),
        chosen_preset(Some(source), Some(id)) == chosen_preset(Some(source), None),
{
}

} // verus!
