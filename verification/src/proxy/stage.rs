//! Output items in the making.
use vstd::prelude::*;

verus! {


// ── stages ────────────────────────────────────────────────────────────

/// A reasoning item or a message in the making.
#[derive(Debug, PartialEq, Eq)]
pub struct TextStage {
    pub added: bool,
    pub item_id: String,
    pub text: String,
    pub output_index: usize,
}

pub struct TextStageView {
    pub added: bool,
    pub item_id: Seq<char>,
    pub text: Seq<char>,
    pub output_index: usize,
}

impl View for TextStage {
    type V = TextStageView;

    open spec fn view(&self) -> TextStageView {
        TextStageView {
            added: self.added,
            item_id: self.item_id@,
            text: self.text@,
            output_index: self.output_index,
        }
    }
}

/// A tool call in the making.
#[derive(Debug, PartialEq, Eq)]
pub struct ToolStage {
    pub added: bool,
    pub item_id: String,
    pub call_id: String,
    pub name: String,
    pub arguments: String,
    pub output_index: usize,
}

pub struct ToolStageView {
    pub added: bool,
    pub item_id: Seq<char>,
    pub call_id: Seq<char>,
    pub name: Seq<char>,
    pub arguments: Seq<char>,
    pub output_index: usize,
}

impl View for ToolStage {
    type V = ToolStageView;

    open spec fn view(&self) -> ToolStageView {
        ToolStageView {
            added: self.added,
            item_id: self.item_id@,
            call_id: self.call_id@,
            name: self.name@,
            arguments: self.arguments@,
            output_index: self.output_index,
        }
    }
}

impl Clone for ToolStage {
    fn clone(&self) -> (copy: Self)
        ensures
            copy == *self,
    {
        ToolStage {
            added: self.added,
            item_id: self.item_id.clone(),
            call_id: self.call_id.clone(),
            name: self.name.clone(),
            arguments: self.arguments.clone(),
            output_index: self.output_index,
        }
    }
}

// ── tool calls in order ───────────────────────────────────────────────

pub open spec fn tool_views(tools: Seq<(usize, ToolStage)>) -> Seq<(usize, ToolStageView)> {
    tools.map_values(|t: (usize, ToolStage)| (t.0, t.1@))
}

/// Whether the tool calls are ordered by their index, with no index twice.
pub open spec fn ordered(tools: Seq<(usize, ToolStageView)>) -> bool {
    forall|i: int, k: int| 0 <= i < k < tools.len() ==> (#[trigger] tools[i]).0 < (#[trigger] tools[k]).0
}

/// How many of the ordered tool calls come before `index`.
pub open spec fn slot(tools: Seq<(usize, ToolStageView)>, index: usize) -> nat
    decreases tools.len(),
{
    if tools.len() > 0 && tools.last().0 >= index {
        slot(tools.drop_last(), index)
    } else {
        tools.len()
    }
}

/// Whether there is a tool call with this index.
pub open spec fn has_stage(tools: Seq<(usize, ToolStageView)>, index: usize) -> bool {
    let i = slot(tools, index) as int;
    i < tools.len() && tools[i].0 == index
}

/// A tool call of which nothing has come yet.
pub open spec fn new_stage() -> ToolStageView {
    ToolStageView {
        added: false,
        item_id: Seq::empty(),
        call_id: Seq::empty(),
        name: Seq::empty(),
        arguments: Seq::empty(),
        output_index: 0,
    }
}

/// What has come of the tool call with this index.
pub open spec fn stage_at(tools: Seq<(usize, ToolStageView)>, index: usize) -> ToolStageView {
    if has_stage(tools, index) {
        tools[slot(tools, index) as int].1
    } else {
        new_stage()
    }
}

/// The tool calls with the one of this index set to `stage`.
pub open spec fn put_stage(
    tools: Seq<(usize, ToolStageView)>,
    index: usize,
    stage: ToolStageView,
) -> Seq<(usize, ToolStageView)> {
    let i = slot(tools, index) as int;
    if has_stage(tools, index) {
        tools.update(i, (index, stage))
    } else {
        tools.insert(i, (index, stage))
    }
}

proof fn lemma_slot(tools: Seq<(usize, ToolStageView)>, index: usize)
    requires
        ordered(tools),
    ensures
        slot(tools, index) <= tools.len(),
        forall|i: int| 0 <= i < slot(tools, index) ==> (#[trigger] tools[i]).0 < index,
        forall|i: int| slot(tools, index) <= i < tools.len() ==> (#[trigger] tools[i]).0 >= index,
    decreases tools.len(),
{
    if tools.len() > 0 && tools.last().0 >= index {
        let rest = tools.drop_last();
        assert(ordered(rest)) by {
            assert forall|i: int, k: int| 0 <= i < k < rest.len() implies (#[trigger] rest[i]).0 < (
            #[trigger] rest[k]).0 by {
                assert(rest[i] == tools[i] && rest[k] == tools[k]);
            }
        }
        lemma_slot(rest, index);
        assert forall|i: int| 0 <= i < slot(tools, index) implies (#[trigger] tools[i]).0
            < index by {
            assert(tools[i] == rest[i]);
        }
        assert forall|i: int| slot(tools, index) <= i < tools.len() implies (
        #[trigger] tools[i]).0 >= index by {
            if i < rest.len() {
                assert(tools[i] == rest[i]);
            }
        }
    } else if tools.len() > 0 {
        assert forall|i: int| 0 <= i < slot(tools, index) implies (#[trigger] tools[i]).0
            < index by {
            if i < tools.len() - 1 {
                assert(tools[i].0 < tools[tools.len() - 1].0);
            }
        }
    }
}

/// An index from which on nothing is smaller, and before which everything is, is the slot.
proof fn lemma_slot_is(tools: Seq<(usize, ToolStageView)>, index: usize, i: int)
    requires
        ordered(tools),
        0 <= i <= tools.len(),
        forall|k: int| 0 <= k < i ==> (#[trigger] tools[k]).0 < index,
        forall|k: int| i <= k < tools.len() ==> (#[trigger] tools[k]).0 >= index,
    ensures
        slot(tools, index) == i,
{
    lemma_slot(tools, index);
    let s = slot(tools, index) as int;
    if s < i {
        assert(tools[s].0 < index);
    }
    if i < s {
        assert(tools[i].0 >= index);
    }
}

proof fn lemma_put_ordered(tools: Seq<(usize, ToolStageView)>, index: usize, stage: ToolStageView)
    requires
        ordered(tools),
    ensures
        ordered(put_stage(tools, index, stage)),
        slot(put_stage(tools, index, stage), index) == slot(tools, index),
        slot(tools, index) < put_stage(tools, index, stage).len(),
        put_stage(tools, index, stage)[slot(tools, index) as int] == (index, stage),
{
    let i = slot(tools, index) as int;
    let next = put_stage(tools, index, stage);
    lemma_slot(tools, index);
    if has_stage(tools, index) {
        assert forall|a: int, b: int| 0 <= a < b < next.len() implies (#[trigger] next[a]).0 < (
        #[trigger] next[b]).0 by {
            assert(tools[a].0 < tools[b].0);
        }
    } else {
        assert forall|a: int, b: int| 0 <= a < b < next.len() implies (#[trigger] next[a]).0 < (
        #[trigger] next[b]).0 by {
            if a < i && b < i {
                assert(tools[a].0 < tools[b].0);
            } else if a < i && b > i {
                assert(tools[a].0 < tools[b - 1].0);
            } else if a > i {
                assert(tools[a - 1].0 < tools[b - 1].0);
            } else if a == i {
                assert(tools[i].0 >= index);
                if b - 1 > i {
                    assert(tools[i].0 < tools[b - 1].0);
                }
            } else {
                assert(tools[a].0 < index);
            }
        }
    }
    assert forall|k: int| 0 <= k < i implies (#[trigger] next[k]).0 < index by {
        assert(next[k] == tools[k]);
    }
    assert forall|k: int| i <= k < next.len() implies (#[trigger] next[k]).0 >= index by {
        if k > i {
            assert(next[i].0 < next[k].0);
        }
    }
    lemma_slot_is(next, index, i);
}

proof fn lemma_put_other(
    tools: Seq<(usize, ToolStageView)>,
    index: usize,
    stage: ToolStageView,
    other: usize,
)
    requires
        ordered(tools),
        other != index,
    ensures
        stage_at(put_stage(tools, index, stage), other) == stage_at(tools, other),
        has_stage(put_stage(tools, index, stage), other) == has_stage(tools, other),
{
    let next = put_stage(tools, index, stage);
    let j = slot(tools, other) as int;
    let i = slot(tools, index) as int;
    lemma_put_ordered(tools, index, stage);
    lemma_slot(tools, index);
    lemma_slot(tools, other);
    if has_stage(tools, index) {
        assert forall|k: int| 0 <= k < j implies (#[trigger] next[k]).0 < other by {
            assert(tools[k].0 < other);
        }
        assert forall|k: int| j <= k < next.len() implies (#[trigger] next[k]).0 >= other by {
            assert(tools[k].0 >= other);
        }
        lemma_slot_is(next, other, j);
    } else if other < index {
        assert(j <= i) by {
            if j > i {
                assert(tools[i].0 < other);
            }
        }
        assert forall|k: int| 0 <= k < j implies (#[trigger] next[k]).0 < other by {
            assert(tools[k].0 < other);
        }
        assert forall|k: int| j <= k < next.len() implies (#[trigger] next[k]).0 >= other by {
            if k < i {
                assert(tools[k].0 >= other);
            } else if k > i {
                assert(next[i].0 < next[k].0);
            }
        }
        lemma_slot_is(next, other, j);
        if j < i {
            assert(next[j] == tools[j]);
        }
    } else {
        assert(i <= j) by {
            if j < i {
                assert(tools[j].0 < index);
            }
        }
        assert forall|k: int| 0 <= k < j + 1 implies (#[trigger] next[k]).0 < other by {
            if k < i {
                assert(tools[k].0 < index);
            } else if k > i {
                assert(tools[k - 1].0 < other);
            }
        }
        assert forall|k: int| j + 1 <= k < next.len() implies (#[trigger] next[k]).0 >= other by {
            assert(tools[k - 1].0 >= other);
        }
        lemma_slot_is(next, other, j + 1);
    }
}

/// Setting one tool call keeps the order, and leaves the others as they were.
pub proof fn lemma_put_stage(
    tools: Seq<(usize, ToolStageView)>,
    index: usize,
    stage: ToolStageView,
    other: usize,
)
    requires
        ordered(tools),
    ensures
        ordered(put_stage(tools, index, stage)),
        has_stage(put_stage(tools, index, stage), index),
        stage_at(put_stage(tools, index, stage), index) == stage,
        other != index ==> stage_at(put_stage(tools, index, stage), other) == stage_at(tools, other),
        other != index ==> has_stage(put_stage(tools, index, stage), other) == has_stage(
            tools,
            other,
        ),
{
    lemma_put_ordered(tools, index, stage);
    if other != index {
        lemma_put_other(tools, index, stage, other);
    }
}

/// Setting one tool call leaves every other as it was.
pub proof fn lemma_put_stage_all(
    tools: Seq<(usize, ToolStageView)>,
    index: usize,
    stage: ToolStageView,
)
    requires
        ordered(tools),
    ensures
        ordered(put_stage(tools, index, stage)),
        forall|other: usize| #[trigger]
            stage_at(put_stage(tools, index, stage), other) == if other == index {
                stage
            } else {
                stage_at(tools, other)
            },
{
    assert forall|other: usize| #[trigger]
        stage_at(put_stage(tools, index, stage), other) == if other == index {
            stage
        } else {
            stage_at(tools, other)
        } by {
        lemma_put_stage(tools, index, stage, other);
    }
    lemma_put_stage(tools, index, stage, index);
}

/// Every tool call is found under its index.
pub proof fn lemma_stage_of(tools: Seq<(usize, ToolStageView)>, i: int)
    requires
        ordered(tools),
        0 <= i < tools.len(),
    ensures
        stage_at(tools, tools[i].0) == tools[i].1,
        has_stage(tools, tools[i].0),
{
    let index = tools[i].0;
    assert forall|k: int| 0 <= k < i implies (#[trigger] tools[k]).0 < index by {
        assert(tools[k].0 < tools[i].0);
    }
    assert forall|k: int| i <= k < tools.len() implies (#[trigger] tools[k]).0 >= index by {
        if k > i {
            assert(tools[i].0 < tools[k].0);
        }
    }
    lemma_slot_is(tools, index, i);
}

} // verus!
