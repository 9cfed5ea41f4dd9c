//! Groups and their full paths.

use std::collections::HashMap;
use vstd::prelude::*;

verus! {

broadcast use vstd::std_specs::hash::group_hash_axioms;

/// Defines a [gitlab group](https://docs.gitlab.com/api/groups/)
#[derive(Debug)]
pub struct Group {
    /// Group id
    pub id: usize,
    /// Group parent id
    pub parent_id: Option<usize>,
    /// Group path
    pub path: String,
    /// Group URL
    pub web_url: String,
}

impl Clone for Group {
    fn clone(&self) -> (group: Group)
        ensures
            group == *self,
    {
        Group {
            id: self.id,
            parent_id: self.parent_id,
            path: self.path.clone(),
            web_url: self.web_url.clone(),
        }
    }
}

/// How far the full path of a group is known.
pub struct PathState {
    /// The path so far: of the group itself and of the ancestors found
    pub path: Seq<char>,
    /// The next ancestor, or none where the path is complete
    pub parent: Option<usize>,
}

/// The groups known once the full path of `group` is asked for: the group itself is added,
/// unless its id is known already.
pub open spec fn with_group(known: Map<usize, Group>, group: Group) -> Map<usize, Group> {
    if known.contains_key(group.id) {
        known
    } else {
        known.insert(group.id, group)
    }
}

/// Where the full path of `group` starts: at its own path. Its parent is that of the known
/// group with its id.
pub open spec fn start_state(known: Map<usize, Group>, group: Group) -> PathState {
    PathState { path: group.path@, parent: with_group(known, group)[group.id].parent_id }
}

/// The path with one more ancestor in front.
pub open spec fn climb(state: PathState, ancestor: Group) -> PathState {
    PathState { path: ancestor.path@.push('/') + state.path, parent: ancestor.parent_id }
}

/// What a step towards the full path came to.
#[derive(Clone, Copy, Debug)]
pub enum PathStep {
    /// The path is complete.
    Complete,
    /// One more ancestor stands in the path.
    Climbed,
    /// The group with this id has to be asked of gitlab first.
    Fetch { id: usize },
}

/// A step: the next ancestor is taken from the known groups, or else from gitlab's answer.
pub open spec fn path_step(
    state: PathState,
    known: Map<usize, Group>,
    answer: Option<Group>,
) -> PathStep {
    match state.parent {
        None => PathStep::Complete,
        Some(id) => if known.contains_key(id) || answer is Some {
            PathStep::Climbed
        } else {
            PathStep::Fetch { id }
        },
    }
}

/// The groups known after a step: gitlab's answer is kept under the id that was asked for,
/// unless that id is known already.
pub open spec fn known_after(
    state: PathState,
    known: Map<usize, Group>,
    answer: Option<Group>,
) -> Map<usize, Group> {
    match (state.parent, answer) {
        (Some(id), Some(group)) if !known.contains_key(id) => known.insert(id, group),
        _ => known,
    }
}

/// The state after a step.
pub open spec fn state_after(
    state: PathState,
    known: Map<usize, Group>,
    answer: Option<Group>,
) -> PathState {
    if path_step(state, known, answer) is Climbed {
        climb(state, known_after(state, known, answer)[state.parent->0])
    } else {
        state
    }
}

/// The full path of a group, as far as it is known.
///
/// Because the gitlab API gives us `path_with_namespace` for projects but not for groups, the
/// path is put together from the group up, one ancestor at a time.
pub struct GroupFullPath {
    path: String,
    parent: Option<usize>,
}

impl View for GroupFullPath {
    type V = PathState;

    closed spec fn view(&self) -> PathState {
        PathState { path: self.path@, parent: self.parent }
    }
}

impl GroupFullPath {
    /// Starts the full path of `group`, and keeps the group in the cache.
    pub fn start(group: &Group, cache: &mut HashMap<usize, Group>) -> (full_path: GroupFullPath)
        ensures
            final(cache)@ == with_group(old(cache)@, *group),
            full_path@ == start_state(old(cache)@, *group),
            full_path@.path == group.path@,
            full_path@.parent == if old(cache)@.contains_key(group.id) {
                old(cache)@[group.id].parent_id
            } else {
                group.parent_id
            },
            final(cache)@ == if old(cache)@.contains_key(group.id) {
                old(cache)@
            } else {
                old(cache)@.insert(group.id, *group)
            },
    {
        let parent: Option<usize> = match cache.get(&group.id) {
            Some(known) => known.parent_id,
            None => {
                cache.insert(group.id, group.clone());
                group.parent_id
            },
        };
        GroupFullPath { path: group.path.clone(), parent }
    }

    /// Takes a step towards the full path. `answer` is the group that gitlab gave for the id
    /// of the last [`PathStep::Fetch`]; it is kept in the cache.
    pub fn step(&mut self, answer: Option<Group>, cache: &mut HashMap<usize, Group>) -> (step: PathStep)
        ensures
            step == path_step(old(self)@, old(cache)@, answer),
            final(self)@ == state_after(old(self)@, old(cache)@, answer),
            final(cache)@ == known_after(old(self)@, old(cache)@, answer),
            match old(self)@.parent {
                None => {
                    &&& step is Complete
                    &&& final(self)@ == old(self)@
                    &&& final(cache)@ == old(cache)@
                },
                Some(id) => if old(cache)@.contains_key(id) {
                    &&& step is Climbed
                    &&& final(self)@.path == old(cache)@[id].path@ + seq!['/'] + old(self)@.path
                    &&& final(self)@.parent == old(cache)@[id].parent_id
                    &&& final(cache)@ == old(cache)@
                } else {
                    match answer {
                        Some(group) => {
                            &&& step is Climbed
                            &&& final(self)@.path == group.path@ + seq!['/'] + old(self)@.path
                            &&& final(self)@.parent == group.parent_id
                            &&& final(cache)@ == old(cache)@.insert(id, group)
                        },
                        None => {
                            &&& step == PathStep::Fetch { id }
                            &&& final(self)@ == old(self)@
                            &&& final(cache)@ == old(cache)@
                        },
                    }
                },
            },
    {
        match self.parent {
            None => PathStep::Complete,
            Some(id) => match cache.get(&id) {
                Some(ancestor) => {
                    self.climb(ancestor);
                    PathStep::Climbed
                },
                None => match answer {
                    Some(ancestor) => {
                        self.climb(&ancestor);
                        cache.insert(id, ancestor);
                        PathStep::Climbed
                    },
                    None => PathStep::Fetch { id },
                },
            },
        }
    }

    /// Puts an ancestor in front of the path.
    fn climb(&mut self, ancestor: &Group)
        ensures
            final(self)@ == climb(old(self)@, *ancestor),
    {
        proof {
            reveal_strlit("/");
        }
        let mut path = ancestor.path.clone();
        path.append("/");
        path.append(self.path.as_str());
        assert(path@ =~= ancestor.path@.push('/') + self.path@);
        self.path = path;
        self.parent = ancestor.parent_id;
    }

    /// The path as far as it is known.
    pub fn into_path(self) -> (path: String)
        ensures
            path@ == self@.path,
    {
        self.path
    }
}

/// Whether the chain of parents from `parent` ends after `depth` known groups.
pub open spec fn reaches_root(known: Map<usize, Group>, parent: Option<usize>, depth: nat) -> bool
    decreases depth,
{
    match parent {
        None => depth == 0,
        Some(id) => depth > 0 && known.contains_key(id) && reaches_root(
            known,
            known[id].parent_id,
            (depth - 1) as nat,
        ),
    }
}

/// The paths of the `depth` ancestors from `parent` on, the most distant one first.
pub open spec fn ancestor_paths(
    known: Map<usize, Group>,
    parent: Option<usize>,
    depth: nat,
) -> Seq<Seq<char>>
    decreases depth,
{
    match parent {
        Some(id) if depth > 0 => ancestor_paths(
            known,
            known[id].parent_id,
            (depth - 1) as nat,
        ).push(known[id].path@),
        _ => Seq::empty(),
    }
}

/// Whether `path` is complete: the paths of all ancestors, the most distant one first, then the
/// path of the group itself, separated by slashes.
pub open spec fn is_complete_path(
    known: Map<usize, Group>,
    start: PathState,
    depth: nat,
    path: Seq<char>,
) -> bool {
    &&& reaches_root(known, start.parent, depth)
    &&& path == crate::text::join(
        ancestor_paths(known, start.parent, depth).push(start.path),
        '/',
    )
}

/// The state and the known groups after a step for each of the answers.
pub open spec fn run(
    state: PathState,
    known: Map<usize, Group>,
    answers: Seq<Option<Group>>,
) -> (PathState, Map<usize, Group>)
    decreases answers.len(),
{
    if answers.len() == 0 {
        (state, known)
    } else {
        run(
            state_after(state, known, answers[0]),
            known_after(state, known, answers[0]),
            answers.skip(1),
        )
    }
}

/// Whether every group of `known` is in `later` too, unchanged.
pub open spec fn all_kept(known: Map<usize, Group>, later: Map<usize, Group>) -> bool {
    forall|id: usize| #[trigger]
        known.contains_key(id) ==> later.contains_key(id) && later[id] == known[id]
}

/// A group that was known stays known, unchanged, whatever steps are taken.
pub proof fn law_known_groups_stay(
    state: PathState,
    known: Map<usize, Group>,
    answers: Seq<Option<Group>>,
)
    ensures
        all_kept(known, run(state, known, answers).1),
    decreases answers.len(),
{
    if answers.len() > 0 {
        let next = known_after(state, known, answers[0]);
        law_known_groups_stay(state_after(state, known, answers[0]), next, answers.skip(1));
        assert(all_kept(known, next));
    }
}

/// One ancestor more or less: taking the nearest ancestor into the path of the group leaves the
/// joined path as it is.
proof fn lemma_climb_keeps_path(known: Map<usize, Group>, state: PathState, depth: nat, path: Seq<char>)
    requires
        state.parent is Some,
        known.contains_key(state.parent->0),
        is_complete_path(known, climb(state, known[state.parent->0]), depth, path),
    ensures
        is_complete_path(known, state, depth + 1, path),
{
    let group = known[state.parent->0];
    let above = ancestor_paths(known, group.parent_id, depth);
    assert(ancestor_paths(known, state.parent, depth + 1) == above.push(group.path@));
    crate::text::lemma_join_push(above, group.path@.push('/') + state.path, '/');
    crate::text::lemma_join_push(above, group.path@, '/');
    crate::text::lemma_join_push(above.push(group.path@), state.path, '/');
    assert(crate::text::join(above.push(group.path@).push(state.path), '/') =~= path);
}

/// When the steps are done, the path is complete: it holds the paths of all ancestors, from
/// the root down, then the path that was started with, separated by slashes.
pub proof fn law_finished_path_is_complete(
    state: PathState,
    known: Map<usize, Group>,
    answers: Seq<Option<Group>>,
)
    requires
        run(state, known, answers).0.parent is None,
    ensures
        exists|depth: nat|
            depth <= answers.len() && is_complete_path(
                run(state, known, answers).1,
                state,
                depth,
                run(state, known, answers).0.path,
            ),
    decreases answers.len(),
{
    let (end, all) = run(state, known, answers);
    law_known_groups_stay(state, known, answers);
    if state.parent is None {
        lemma_complete_state_stays(state, known, answers);
        crate::text::lemma_join_push(Seq::empty(), state.path, '/');
        assert(ancestor_paths(all, state.parent, 0) =~= Seq::empty());
        assert(is_complete_path(all, state, 0, end.path));
    } else {
        let next = state_after(state, known, answers[0]);
        let more = known_after(state, known, answers[0]);
        let rest = answers.skip(1);
        law_finished_path_is_complete(next, more, rest);
        law_known_groups_stay(next, more, rest);
        let depth = choose|depth: nat|
            depth <= rest.len() && is_complete_path(all, next, depth, end.path);
        if path_step(state, known, answers[0]) is Climbed {
            assert(more.contains_key(state.parent->0));
            assert(all[state.parent->0] == more[state.parent->0]);
            lemma_climb_keeps_path(all, state, depth, end.path);
            assert(depth + 1 <= answers.len());
        }
    }
}

/// Once a path is complete, further steps change nothing.
proof fn lemma_complete_state_stays(
    state: PathState,
    known: Map<usize, Group>,
    answers: Seq<Option<Group>>,
)
    requires
        state.parent is None,
    ensures
        run(state, known, answers) == (state, known),
    decreases answers.len(),
{
    if answers.len() > 0 {
        lemma_complete_state_stays(state, known, answers.skip(1));
    }
}

/// `n` steps without an answer.
pub open spec fn no_answers(n: nat) -> Seq<Option<Group>> {
    Seq::new(n, |i: int| None)
}

/// Where all ancestors are known, no request is needed: as many steps as there are ancestors
/// complete the path without any answer, and the known groups stay as they are.
pub proof fn law_known_ancestors_need_no_request(
    state: PathState,
    known: Map<usize, Group>,
    depth: nat,
)
    requires
        reaches_root(known, state.parent, depth),
    ensures
        !(path_step(state, known, None) is Fetch),
        run(state, known, no_answers(depth)).0.parent is None,
        run(state, known, no_answers(depth)).1 == known,
        is_complete_path(known, state, depth, run(state, known, no_answers(depth)).0.path),
    decreases depth,
{
    if depth == 0 {
        crate::text::lemma_join_push(Seq::empty(), state.path, '/');
        assert(ancestor_paths(known, state.parent, 0) =~= Seq::empty());
    } else {
        let next = state_after(state, known, None);
        let less = (depth - 1) as nat;
        assert(no_answers(depth).skip(1) =~= no_answers(less));
        assert(no_answers(depth)[0] is None);
        law_known_ancestors_need_no_request(next, known, less);
        lemma_climb_keeps_path(known, state, less, run(next, known, no_answers(less)).0.path);
    }
}

/// Asking for the full path of a group again, once it was found, gives the same path from the
/// cache alone: no request, and no change of the cache.
pub proof fn law_second_lookup_from_cache(
    group: Group,
    known: Map<usize, Group>,
    answers: Seq<Option<Group>>,
)
    requires
        run(start_state(known, group), with_group(known, group), answers).0.parent is None,
    ensures
        ({
            let (found, cache) = run(start_state(known, group), with_group(known, group), answers);
            &&& with_group(cache, group) == cache
            &&& start_state(cache, group) == start_state(known, group)
            &&& exists|depth: nat| #[trigger]
                run(start_state(cache, group), cache, no_answers(depth)) == (found, cache)
        }),
{
    let start = start_state(known, group);
    let first = with_group(known, group);
    let (found, cache) = run(start, first, answers);
    law_known_groups_stay(start, first, answers);
    assert(first.contains_key(group.id));
    assert(cache.contains_key(group.id) && cache[group.id] == first[group.id]);
    law_finished_path_is_complete(start, first, answers);
    let depth = choose|depth: nat|
        depth <= answers.len() && is_complete_path(cache, start, depth, found.path);
    law_known_ancestors_need_no_request(start, cache, depth);
    assert(run(start_state(cache, group), cache, no_answers(depth)) == (found, cache));
}

/// The full path of a group is the full path of its parent, a slash and the path of the group.
pub proof fn law_path_extends_parent_path(
    known: Map<usize, Group>,
    start: PathState,
    parent_depth: nat,
    parent_path: Seq<char>,
)
    requires
        start.parent is Some,
        known.contains_key(start.parent->0),
        ({
            let parent = known[start.parent->0];
            is_complete_path(
                known,
                PathState { path: parent.path@, parent: parent.parent_id },
                parent_depth,
                parent_path,
            )
        }),
    ensures
        is_complete_path(
            known,
            start,
            parent_depth + 1,
            parent_path.push('/') + start.path,
        ),
{
    let parent = known[start.parent->0];
    let above = ancestor_paths(known, parent.parent_id, parent_depth);
    assert(ancestor_paths(known, start.parent, parent_depth + 1) == above.push(parent.path@));
    crate::text::lemma_join_push(above.push(parent.path@), start.path, '/');
}

/// A lookup: the steps for at most `n` ancestors, where `server` gives the group with an id, or
/// none where it cannot be fetched. A group is asked of the server where a step needs it.
///
/// Gives the ids that were asked for, in order, and the state and the known groups at the end.
pub open spec fn lookup(
    state: PathState,
    known: Map<usize, Group>,
    server: spec_fn(usize) -> Option<Group>,
    n: nat,
) -> (Seq<usize>, PathState, Map<usize, Group>)
    decreases n,
{
    if n == 0 {
        (Seq::empty(), state, known)
    } else {
        match path_step(state, known, None) {
            PathStep::Complete => (Seq::empty(), state, known),
            PathStep::Climbed => lookup(
                state_after(state, known, None),
                known,
                server,
                (n - 1) as nat,
            ),
            PathStep::Fetch { id } => match server(id) {
                Some(group) => {
                    let (asked, end, all) = lookup(
                        state_after(state, known, Some(group)),
                        known_after(state, known, Some(group)),
                        server,
                        (n - 1) as nat,
                    );
                    (seq![id] + asked, end, all)
                },
                None => (seq![id], state, known),
            },
        }
    }
}

/// A lookup asks only for groups that are not known, and for each of them once. It forgets no
/// group.
pub proof fn law_lookup_asks_unknown_groups_once(
    state: PathState,
    known: Map<usize, Group>,
    server: spec_fn(usize) -> Option<Group>,
    n: nat,
)
    ensures
        forall|i: int|
            0 <= i < lookup(state, known, server, n).0.len() ==> !known.contains_key(
                #[trigger] lookup(state, known, server, n).0[i],
            ),
        lookup(state, known, server, n).0.no_duplicates(),
        all_kept(known, lookup(state, known, server, n).2),
    decreases n,
{
    if n > 0 && state.parent is Some {
        let id = state.parent->0;
        let less = (n - 1) as nat;
        if known.contains_key(id) {
            law_lookup_asks_unknown_groups_once(
                state_after(state, known, None),
                known,
                server,
                less,
            );
        } else if let Some(group) = server(id) {
            let next = state_after(state, known, Some(group));
            let more = known_after(state, known, Some(group));
            law_lookup_asks_unknown_groups_once(next, more, server, less);
            let rest = lookup(next, more, server, less).0;
            let asked = lookup(state, known, server, n).0;
            assert(forall|i: int| 1 <= i < asked.len() ==> asked[i] == rest[i - 1]);
            assert(asked[0] == id);
            assert forall|i: int| 0 <= i < asked.len() implies !known.contains_key(
                #[trigger] asked[i],
            ) by {
                if i > 0 {
                    assert(!more.contains_key(rest[i - 1]));
                }
            }
            assert forall|i: int, j: int|
                0 <= i < asked.len() && 0 <= j < asked.len() && i != j implies asked[i]
                != asked[j] by {
                if i > 0 {
                    assert(!more.contains_key(rest[i - 1]));
                }
                if j > 0 {
                    assert(!more.contains_key(rest[j - 1]));
                }
            }
            assert(all_kept(known, more));
        }
    }
}

/// The ids of the `depth` ancestors from `parent` on, the nearest one first.
pub open spec fn ancestor_ids(
    known: Map<usize, Group>,
    parent: Option<usize>,
    depth: nat,
) -> Seq<usize>
    decreases depth,
{
    match parent {
        Some(id) if depth > 0 => seq![id] + ancestor_ids(
            known,
            known[id].parent_id,
            (depth - 1) as nat,
        ),
        _ => Seq::empty(),
    }
}

/// A chain of parents ends after one number of groups only.
proof fn lemma_depth_unique(known: Map<usize, Group>, parent: Option<usize>, a: nat, b: nat)
    requires
        reaches_root(known, parent, a),
        reaches_root(known, parent, b),
    ensures
        a == b,
    decreases a,
{
    if parent is Some {
        lemma_depth_unique(known, known[parent->0].parent_id, (a - 1) as nat, (b - 1) as nat);
    }
}

/// The chain of parents ends after fewer groups when it is started at one of the ancestors.
proof fn lemma_root_from_ancestor(
    known: Map<usize, Group>,
    parent: Option<usize>,
    depth: nat,
    i: int,
)
    requires
        reaches_root(known, parent, depth),
        0 <= i < ancestor_ids(known, parent, depth).len(),
    ensures
        i < depth,
        reaches_root(known, Some(ancestor_ids(known, parent, depth)[i]), (depth - i) as nat),
    decreases depth,
{
    if i > 0 {
        let id = parent->0;
        lemma_root_from_ancestor(known, known[id].parent_id, (depth - 1) as nat, i - 1);
    }
}

/// The nearest ancestor is not among the others, where the chain of parents ends.
proof fn lemma_nearest_ancestor_is_no_other(known: Map<usize, Group>, id: usize, depth: nat)
    requires
        depth > 0,
        reaches_root(known, Some(id), depth),
    ensures
        !ancestor_ids(known, known[id].parent_id, (depth - 1) as nat).contains(id),
{
    let others = ancestor_ids(known, known[id].parent_id, (depth - 1) as nat);
    if others.contains(id) {
        let i = choose|i: int| 0 <= i < others.len() && others[i] == id;
        lemma_root_from_ancestor(known, known[id].parent_id, (depth - 1) as nat, i);
        lemma_depth_unique(known, Some(id), depth, (depth - 1 - i) as nat);
    }
}

/// The ids among `ids` of groups that are not known, in order.
pub open spec fn unknown_among(ids: Seq<usize>, known: Map<usize, Group>) -> Seq<usize>
    decreases ids.len(),
{
    if ids.len() == 0 {
        Seq::empty()
    } else if known.contains_key(ids[0]) {
        unknown_among(ids.skip(1), known)
    } else {
        seq![ids[0]] + unknown_among(ids.skip(1), known)
    }
}

/// A group that is not asked about makes no difference to what is unknown.
proof fn lemma_unknown_among_others(
    ids: Seq<usize>,
    known: Map<usize, Group>,
    id: usize,
    group: Group,
)
    requires
        !ids.contains(id),
    ensures
        unknown_among(ids, known.insert(id, group)) == unknown_among(ids, known),
    decreases ids.len(),
{
    if ids.len() > 0 {
        let rest = ids.skip(1);
        assert(ids.contains(ids[0]));
        assert(!rest.contains(id)) by {
            if rest.contains(id) {
                let i = choose|i: int| 0 <= i < rest.len() && rest[i] == id;
                assert(ids[i + 1] == id);
            }
        }
        lemma_unknown_among_others(rest, known, id, group);
    }
}

/// A lookup that completes a path asks for exactly the ancestors that were not known, the
/// nearest one first.
pub proof fn law_lookup_asks_nearest_first(
    state: PathState,
    known: Map<usize, Group>,
    server: spec_fn(usize) -> Option<Group>,
    n: nat,
)
    requires
        lookup(state, known, server, n).1.parent is None,
    ensures
        exists|depth: nat|
            depth <= n && is_complete_path(
                lookup(state, known, server, n).2,
                state,
                depth,
                lookup(state, known, server, n).1.path,
            ) && lookup(state, known, server, n).0 == unknown_among(
                ancestor_ids(lookup(state, known, server, n).2, state.parent, depth),
                known,
            ),
    decreases n,
{
    let (asked, end, all) = lookup(state, known, server, n);
    law_lookup_asks_unknown_groups_once(state, known, server, n);
    if state.parent is None {
        crate::text::lemma_join_push(Seq::empty(), state.path, '/');
        assert(ancestor_paths(all, state.parent, 0) =~= Seq::empty());
        assert(is_complete_path(all, state, 0, end.path));
        assert(ancestor_ids(all, state.parent, 0) =~= Seq::empty());
    } else {
        let id = state.parent->0;
        let less = (n - 1) as nat;
        let answer = if known.contains_key(id) {
            None
        } else {
            server(id)
        };
        let next = state_after(state, known, answer);
        let more = known_after(state, known, answer);
        law_lookup_asks_nearest_first(next, more, server, less);
        law_lookup_asks_unknown_groups_once(next, more, server, less);
        let rest = lookup(next, more, server, less).0;
        let depth = choose|depth: nat|
            depth <= less && is_complete_path(all, next, depth, end.path) && rest == unknown_among(
                ancestor_ids(all, next.parent, depth),
                more,
            );
        assert(more.contains_key(id));
        assert(all[id] == more[id]);
        lemma_climb_keeps_path(all, state, depth, end.path);
        let ids = ancestor_ids(all, state.parent, depth + 1);
        let others = ancestor_ids(all, next.parent, depth);
        assert(ids.skip(1) =~= others);
        lemma_nearest_ancestor_is_no_other(all, id, depth + 1);
        if !known.contains_key(id) {
            lemma_unknown_among_others(others, known, id, more[id]);
        }
        assert(asked =~= unknown_among(ids, known));
    }
}

/// A path starts with the path of the group itself. The ancestor to follow is the parent of the
/// known group with the id of the group, or the parent of the group where its id was not known.
/// The group is then known, and all others are as they were.
pub proof fn law_start_at_the_group(known: Map<usize, Group>, group: Group, other: usize)
    ensures
        start_state(known, group).path == group.path@,
        known.contains_key(group.id) ==> start_state(known, group).parent
            == known[group.id].parent_id,
        !known.contains_key(group.id) ==> start_state(known, group).parent == group.parent_id,
        with_group(known, group).contains_key(group.id),
        !known.contains_key(group.id) ==> with_group(known, group)[group.id] == group,
        with_group(known, group).contains_key(other) <==> known.contains_key(other) || other
            == group.id,
        known.contains_key(other) ==> with_group(known, group)[other] == known[other],
{
}

/// A step follows the parent: a known ancestor is put in front of the path, with a slash
/// between, and its parent is next. An answer is taken only for an ancestor that is not known,
/// and becomes known under the id that was asked for. Without an answer that very id is asked
/// for, and without a parent nothing is left to do.
pub proof fn law_step_follows_the_parent(
    path: Seq<char>,
    id: usize,
    known: Map<usize, Group>,
    answer: Option<Group>,
    group: Group,
)
    ensures
        ({
            let done = PathState { path, parent: None };
            &&& path_step(done, known, answer) is Complete
            &&& state_after(done, known, answer) == done
            &&& known_after(done, known, answer) == known
        }),
        ({
            let state = PathState { path, parent: Some(id) };
            if known.contains_key(id) {
                &&& path_step(state, known, answer) is Climbed
                &&& state_after(state, known, answer).path == known[id].path@ + seq!['/'] + path
                &&& state_after(state, known, answer).parent == known[id].parent_id
                &&& known_after(state, known, answer) == known
            } else {
                &&& path_step(state, known, Some(group)) is Climbed
                &&& state_after(state, known, Some(group)).path == group.path@ + seq!['/'] + path
                &&& state_after(state, known, Some(group)).parent == group.parent_id
                &&& known_after(state, known, Some(group)) == known.insert(id, group)
                &&& path_step(state, known, None) == PathStep::Fetch { id }
                &&& state_after(state, known, None) == state
                &&& known_after(state, known, None) == known
            }
        }),
{
    let state = PathState { path, parent: Some(id) };
    assert(known[id].path@.push('/') + path =~= known[id].path@ + seq!['/'] + path);
    assert(group.path@.push('/') + path =~= group.path@ + seq!['/'] + path);
}

/// Whether each of the ids is that of the parent of the one before it, and the last one is that
/// of a group without a parent.
pub open spec fn is_chain_to_root(groups: Map<usize, Group>, ids: Seq<usize>) -> bool {
    &&& ids.len() > 0
    &&& forall|i: int| 0 <= i < ids.len() ==> #[trigger] groups.contains_key(ids[i])
    &&& forall|i: int|
        0 <= i < ids.len() - 1 ==> #[trigger] groups[ids[i]].parent_id == Some(ids[i + 1])
    &&& groups[ids.last()].parent_id is None
}

/// The ancestors up to the root form a chain of parents, and their paths are those of the groups
/// in that chain, from its end.
proof fn lemma_ancestors_are_chain(known: Map<usize, Group>, parent: Option<usize>, depth: nat)
    requires
        reaches_root(known, parent, depth),
    ensures
        ancestor_ids(known, parent, depth).len() == depth,
        ancestor_paths(known, parent, depth) == Seq::new(
            depth,
            |i: int| known[ancestor_ids(known, parent, depth)[depth - 1 - i]].path@,
        ),
        depth > 0 ==> is_chain_to_root(known, ancestor_ids(known, parent, depth))
            && ancestor_ids(known, parent, depth)[0] == parent->0,
    decreases depth,
{
    if depth > 0 {
        let id = parent->0;
        let less = (depth - 1) as nat;
        let next = known[id].parent_id;
        lemma_ancestors_are_chain(known, next, less);
        let ids = ancestor_ids(known, parent, depth);
        let rest = ancestor_ids(known, next, less);
        assert(ids =~= seq![id] + rest);
        assert(forall|i: int| 1 <= i < ids.len() ==> ids[i] == rest[i - 1]);
        assert forall|i: int| 0 <= i < ids.len() implies #[trigger] known.contains_key(ids[i]) by {
            if i > 0 {
                assert(known.contains_key(rest[i - 1]));
            }
        }
        assert forall|i: int| 0 <= i < ids.len() - 1 implies #[trigger] known[ids[i]].parent_id
            == Some(ids[i + 1]) by {
            if i > 0 {
                assert(known[rest[i - 1]].parent_id == Some(rest[i]));
            } else {
                assert(rest[0] == ids[1]);
            }
        }
        if depth > 1 {
            assert(ids.last() == rest.last());
        }
        assert(ancestor_paths(known, parent, depth) =~= Seq::new(
            depth,
            |i: int| known[ids[depth - 1 - i]].path@,
        ));
    } else {
        assert(ancestor_paths(known, parent, depth) =~= Seq::new(
            depth,
            |i: int| known[ancestor_ids(known, parent, depth)[depth - 1 - i]].path@,
        ));
    }
}

/// A finished lookup of a group follows the parents from that group to the root: its path is the
/// paths of the groups in that chain, from the root down, then the path of the group itself,
/// with slashes between. The chain starts at the known group with the id of the group, or at the
/// group where its id was not known.
pub proof fn law_finished_path_follows_parents(
    group: Group,
    known: Map<usize, Group>,
    answers: Seq<Option<Group>>,
)
    requires
        run(start_state(known, group), with_group(known, group), answers).0.parent is None,
    ensures
        ({
            let (end, all) = run(start_state(known, group), with_group(known, group), answers);
            &&& all.contains_key(group.id)
            &&& all[group.id] == (if known.contains_key(group.id) {
                known[group.id]
            } else {
                group
            })
            &&& exists|ids: Seq<usize>| #[trigger]
                is_chain_to_root(all, ids) && ids[0] == group.id && end.path == crate::text::join(
                    Seq::new(
                        ids.len(),
                        |i: int|
                            if i == ids.len() - 1 {
                                group.path@
                            } else {
                                all[ids[ids.len() - 1 - i]].path@
                            },
                    ),
                    '/',
                )
        }),
{
    let start = start_state(known, group);
    let first = with_group(known, group);
    let (end, all) = run(start, first, answers);
    law_known_groups_stay(start, first, answers);
    assert(first.contains_key(group.id));
    law_finished_path_is_complete(start, first, answers);
    let depth = choose|depth: nat|
        depth <= answers.len() && is_complete_path(all, start, depth, end.path);
    lemma_ancestors_are_chain(all, start.parent, depth);
    let above = ancestor_ids(all, start.parent, depth);
    let ids = seq![group.id] + above;
    assert(forall|i: int| 1 <= i < ids.len() ==> ids[i] == above[i - 1]);
    assert forall|i: int| 0 <= i < ids.len() implies #[trigger] all.contains_key(ids[i]) by {
        if i > 0 {
            assert(all.contains_key(above[i - 1]));
        }
    }
    assert forall|i: int| 0 <= i < ids.len() - 1 implies #[trigger] all[ids[i]].parent_id == Some(
        ids[i + 1],
    ) by {
        if i > 0 {
            assert(all[above[i - 1]].parent_id == Some(above[i]));
        } else {
            assert(above[0] == ids[1]);
        }
    }
    if depth > 0 {
        assert(ids.last() == above.last());
    }
    assert(is_chain_to_root(all, ids));
    assert(ancestor_paths(all, start.parent, depth).push(start.path) =~= Seq::new(
        ids.len(),
        |i: int|
            if i == ids.len() - 1 {
                group.path@
            } else {
                all[ids[ids.len() - 1 - i]].path@
            },
    ));
}

} // verus!
