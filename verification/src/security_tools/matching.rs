//! Tag matching: which tools a set of requested tags makes visible.
//!
//! Matching ignores ASCII letter case and is many-to-many: a tool is visible
//! when it shares at least one tag with the request. The reserved tag `all`
//! in a request switches filtering off: it is the escape hatch for trusted
//! callers, and every tool is visible under it.

use vstd::prelude::*;
use vstd::string::*;
use crate::security_tools::descriptor::SecurityToolView;
use crate::security_tools::registry::{distinct_ids, has_id};
use crate::text::{eq_ignore_ascii_case, lower, same_ignoring_case, slice_texts, texts};

verus! {

/// The request holds the reserved tag that makes every tool visible.
pub open spec fn grants_all(wanted: Seq<Seq<char>>) -> bool {
    exists|j: int| 0 <= j < wanted.len() && same_ignoring_case(#[trigger] wanted[j], "all"@)
}

/// The tag is one of the requested tags, letter case aside.
pub open spec fn tag_wanted(tag: Seq<char>, wanted: Seq<Seq<char>>) -> bool {
    exists|j: int| 0 <= j < wanted.len() && same_ignoring_case(tag, #[trigger] wanted[j])
}

/// At least one of the tags is requested.
pub open spec fn shares_tag(tags: Seq<Seq<char>>, wanted: Seq<Seq<char>>) -> bool {
    exists|i: int| 0 <= i < tags.len() && tag_wanted(#[trigger] tags[i], wanted)
}

/// The tool is visible under the requested tags.
pub open spec fn visible(tool: SecurityToolView, wanted: Seq<Seq<char>>) -> bool {
    grants_all(wanted) || shares_tag(tool.tags, wanted)
}

/// The tools of the list that are visible under the requested tags, in the
/// order of the list.
pub open spec fn visible_tools(tools: Seq<SecurityToolView>, wanted: Seq<Seq<char>>) -> Seq<
    SecurityToolView,
>
    decreases tools.len(),
{
    if tools.len() == 0 {
        Seq::empty()
    } else if visible(tools.last(), wanted) {
        visible_tools(tools.drop_last(), wanted).push(tools.last())
    } else {
        visible_tools(tools.drop_last(), wanted)
    }
}

/// The tools of the list that belong to the category, in the order of the
/// list.
pub open spec fn in_category(
    tools: Seq<SecurityToolView>,
    category: crate::security_tools::category::SecurityCategory,
) -> Seq<SecurityToolView>
    decreases tools.len(),
{
    if tools.len() == 0 {
        Seq::empty()
    } else if tools.last().category == category {
        in_category(tools.drop_last(), category).push(tools.last())
    } else {
        in_category(tools.drop_last(), category)
    }
}

/// Whether the tag is one of the requested tags, letter case aside.
pub fn tag_in(tag: &str, wanted: &[&str]) -> (res: bool)
    ensures
        res == tag_wanted(tag@, slice_texts(wanted@)),
{
    let mut j: usize = 0;
    while j < wanted.len()
        invariant
            j <= wanted.len(),
            forall|k: int| 0 <= k < j ==> !same_ignoring_case(tag@, #[trigger] slice_texts(wanted@)[k]),
        decreases wanted.len() - j,
    {
        if eq_ignore_ascii_case(tag, wanted[j]) {
            proof {
                assert(slice_texts(wanted@)[j as int] == wanted@[j as int]@);
            }
            return true;
        }
        proof {
            assert(slice_texts(wanted@)[j as int] == wanted@[j as int]@);
        }
        j = j + 1;
    }
    false
}

/// Whether the request holds the reserved tag that makes every tool visible.
pub fn wants_all(wanted: &[&str]) -> (res: bool)
    ensures
        res == grants_all(slice_texts(wanted@)),
{
    let mut j: usize = 0;
    while j < wanted.len()
        invariant
            j <= wanted.len(),
            forall|k: int| 0 <= k < j ==> !same_ignoring_case(#[trigger] slice_texts(wanted@)[k], "all"@),
        decreases wanted.len() - j,
    {
        proof {
            assert(slice_texts(wanted@)[j as int] == wanted@[j as int]@);
        }
        if eq_ignore_ascii_case(wanted[j], "all") {
            return true;
        }
        j = j + 1;
    }
    false
}

/// Whether at least one of a tool's tags is requested.
pub fn any_tag_in(tags: &Vec<String>, wanted: &[&str]) -> (res: bool)
    ensures
        res == shares_tag(texts(tags@), slice_texts(wanted@)),
{
    let mut i: usize = 0;
    while i < tags.len()
        invariant
            i <= tags.len(),
            forall|k: int| 0 <= k < i ==> !tag_wanted(#[trigger] texts(tags@)[k], slice_texts(wanted@)),
        decreases tags.len() - i,
    {
        proof {
            assert(texts(tags@)[i as int] == tags@[i as int]@);
        }
        if tag_in(tags[i].as_str(), wanted) {
            return true;
        }
        i = i + 1;
    }
    false
}

/// The visible tools of a list one longer, from those of the list.
pub proof fn lemma_visible_step(tools: Seq<SecurityToolView>, wanted: Seq<Seq<char>>, i: int)
    requires
        0 <= i < tools.len(),
    ensures
        visible_tools(tools.take(i + 1), wanted) == if visible(tools[i], wanted) {
            visible_tools(tools.take(i), wanted).push(tools[i])
        } else {
            visible_tools(tools.take(i), wanted)
        },
{
    assert(tools.take(i + 1).drop_last() =~= tools.take(i));
    assert(tools.take(i + 1).last() == tools[i]);
}

/// The tools of a category in a list one longer, from those of the list.
pub proof fn lemma_category_step(
    tools: Seq<SecurityToolView>,
    category: crate::security_tools::category::SecurityCategory,
    i: int,
)
    requires
        0 <= i < tools.len(),
    ensures
        in_category(tools.take(i + 1), category) == if tools[i].category == category {
            in_category(tools.take(i), category).push(tools[i])
        } else {
            in_category(tools.take(i), category)
        },
{
    assert(tools.take(i + 1).drop_last() =~= tools.take(i));
    assert(tools.take(i + 1).last() == tools[i]);
}

/// The visible tools are exactly the tools of the list that are visible:
/// filtering neither invents a tool nor drops a visible one.
pub proof fn lemma_visible_tools_members(
    tools: Seq<SecurityToolView>,
    wanted: Seq<Seq<char>>,
    tool: SecurityToolView,
)
    ensures
        visible_tools(tools, wanted).contains(tool) <==> tools.contains(tool) && visible(
            tool,
            wanted,
        ),
    decreases tools.len(),
{
    if tools.len() > 0 {
        let front = tools.drop_last();
        let last = tools.last();
        lemma_visible_tools_members(front, wanted, tool);
        let shown = visible_tools(tools, wanted);
        let shown_front = visible_tools(front, wanted);
        if tools.contains(tool) {
            let k = choose|k: int| 0 <= k < tools.len() && tools[k] == tool;
            if k < tools.len() - 1 {
                assert(front[k] == tool);
            }
        }
        if front.contains(tool) {
            let k = choose|k: int| 0 <= k < front.len() && front[k] == tool;
            assert(tools[k] == tool);
        }
        assert(tools[tools.len() - 1] == last);
        if visible(last, wanted) {
            assert(shown == shown_front.push(last));
            if shown.contains(tool) {
                let k = choose|k: int| 0 <= k < shown.len() && shown[k] == tool;
                if k < shown_front.len() {
                    assert(shown_front[k] == tool);
                }
            }
            if shown_front.contains(tool) {
                let k = choose|k: int| 0 <= k < shown_front.len() && shown_front[k] == tool;
                assert(shown[k] == tool);
            }
            if tool == last {
                assert(shown[shown_front.len() as int] == tool);
            }
        }
    }
}

/// Under a request that holds the reserved tag `all`, every tool is
/// visible, whatever else the request holds.
pub proof fn lemma_all_shows_everything(tools: Seq<SecurityToolView>, wanted: Seq<Seq<char>>)
    requires
        grants_all(wanted),
    ensures
        visible_tools(tools, wanted) == tools,
    decreases tools.len(),
{
    if tools.len() > 0 {
        lemma_all_shows_everything(tools.drop_last(), wanted);
        assert(tools.drop_last().push(tools.last()) =~= tools);
    } else {
        assert(tools =~= Seq::empty());
    }
}

/// A tool that shares no tag with a request without the reserved tag is
/// not among the visible tools, and no visible tool has its id.
pub proof fn lemma_hidden_tool_not_visible(
    tools: Seq<SecurityToolView>,
    wanted: Seq<Seq<char>>,
    i: int,
)
    requires
        distinct_ids(tools),
        0 <= i < tools.len(),
        !visible(tools[i], wanted),
    ensures
        !visible_tools(tools, wanted).contains(tools[i]),
        !has_id(visible_tools(tools, wanted), tools[i].id),
{
    let shown = visible_tools(tools, wanted);
    lemma_visible_tools_members(tools, wanted, tools[i]);
    if has_id(shown, tools[i].id) {
        let k = choose|k: int| 0 <= k < shown.len() && (#[trigger] shown[k]).id == tools[i].id;
        assert(shown.contains(shown[k]));
        lemma_visible_tools_members(tools, wanted, shown[k]);
        let m = choose|m: int| 0 <= m < tools.len() && tools[m] == shown[k];
        if m != i {
            assert(tools[m].id != tools[i].id);
        }
    }
}

/// A text matches its own lower-case form, and turning it to lower case
/// a second time changes nothing.
pub proof fn lemma_lower_matches_itself(s: Seq<char>)
    ensures
        lower(lower(s)) == lower(s),
        same_ignoring_case(lower(s), s),
{
    assert(lower(lower(s)) =~= lower(s));
}

/// Tag matching is case-insensitive: whether a tool is visible does not
/// change when the letter case of its tags or of the requested tags does.
pub proof fn lemma_matching_ignores_case(
    tags: Seq<Seq<char>>,
    wanted: Seq<Seq<char>>,
    tags2: Seq<Seq<char>>,
    wanted2: Seq<Seq<char>>,
)
    requires
        tags.len() == tags2.len(),
        wanted.len() == wanted2.len(),
        forall|i: int| 0 <= i < tags.len() ==> same_ignoring_case(#[trigger] tags[i], tags2[i]),
        forall|j: int| 0 <= j < wanted.len() ==> same_ignoring_case(#[trigger] wanted[j], wanted2[j]),
    ensures
        grants_all(wanted) == grants_all(wanted2),
        shares_tag(tags, wanted) == shares_tag(tags2, wanted2),
{
    if grants_all(wanted) {
        let j = choose|j: int| 0 <= j < wanted.len() && same_ignoring_case(#[trigger] wanted[j], "all"@);
        assert(same_ignoring_case(wanted[j], wanted2[j]));
        assert(same_ignoring_case(wanted2[j], "all"@));
    }
    if grants_all(wanted2) {
        let j = choose|j: int|
            0 <= j < wanted2.len() && same_ignoring_case(#[trigger] wanted2[j], "all"@);
        assert(same_ignoring_case(wanted[j], wanted2[j]));
        assert(same_ignoring_case(wanted[j], "all"@));
    }
    if shares_tag(tags, wanted) {
        let i = choose|i: int| 0 <= i < tags.len() && tag_wanted(#[trigger] tags[i], wanted);
        let j = choose|j: int| 0 <= j < wanted.len() && same_ignoring_case(tags[i], #[trigger] wanted[j]);
        assert(same_ignoring_case(tags[i], tags2[i]));
        assert(same_ignoring_case(wanted[j], wanted2[j]));
        assert(same_ignoring_case(tags2[i], wanted2[j]));
        assert(tag_wanted(tags2[i], wanted2));
    }
    if shares_tag(tags2, wanted2) {
        let i = choose|i: int| 0 <= i < tags2.len() && tag_wanted(#[trigger] tags2[i], wanted2);
        let j = choose|j: int|
            0 <= j < wanted2.len() && same_ignoring_case(tags2[i], #[trigger] wanted2[j]);
        assert(same_ignoring_case(tags[i], tags2[i]));
        assert(same_ignoring_case(wanted[j], wanted2[j]));
        assert(same_ignoring_case(tags[i], wanted[j]));
        assert(tag_wanted(tags[i], wanted));
    }
}

} // verus!
