//! Read-only queries over a registry.

use vstd::prelude::*;
use vstd::string::*;
use crate::security_tools::category::SecurityCategory;
use crate::security_tools::descriptor::{SecurityTool, SecurityToolView};
use crate::security_tools::matching::{
    any_tag_in, in_category, lemma_category_step, lemma_visible_step, tag_wanted, visible,
    visible_tools, wants_all,
};
use crate::security_tools::registry::{has_id, tool_ref_views, SecurityToolRegistry};
use crate::text::{
    ascending, eq_ignore_ascii_case, lemma_text_le_antisymmetric, lemma_texts_push,
    same_ignoring_case, slice_texts, sort_texts, strictly_ascending, text_le, texts,
};

verus! {

/// Some tool of the list carries exactly this tag.
pub open spec fn tag_occurs(tools: Seq<SecurityToolView>, tag: Seq<char>) -> bool {
    exists|i: int, j: int|
        0 <= i < tools.len() && 0 <= j < tools[i].tags.len() && #[trigger] tools[i].tags[j] == tag
}

/// The tool registered under the id carries the tag, letter case aside.
pub open spec fn tool_has_tag(tools: Seq<SecurityToolView>, id: Seq<char>, tag: Seq<char>) -> bool {
    exists|i: int|
        0 <= i < tools.len() && (#[trigger] tools[i]).id == id && tag_wanted(tag, tools[i].tags)
}

/// Drops repeated neighbours from an ascending list of strings.
fn without_repeats(sorted: Vec<String>) -> (res: Vec<String>)
    requires
        ascending(texts(sorted@)),
    ensures
        strictly_ascending(texts(res@)),
        forall|t: Seq<char>| texts(res@).contains(t) <==> texts(sorted@).contains(t),
{
    let mut out: Vec<String> = Vec::new();
    let mut i: usize = 0;
    let ghost src = texts(sorted@);
    while i < sorted.len()
        invariant
            i <= sorted.len(),
            src == texts(sorted@),
            ascending(src),
            strictly_ascending(texts(out@)),
            forall|t: Seq<char>| #[trigger]
                texts(out@).contains(t) <==> src.take(i as int).contains(t),
            i > 0 ==> out@.len() > 0 && texts(out@).last() == src[i as int - 1],
            i == 0 ==> out@.len() == 0,
        decreases sorted.len() - i,
    {
        let ghost before = out@;
        let ghost cur = src[i as int];
        proof {
            assert(src[i as int] == sorted@[i as int]@);
            assert(src.take(i as int + 1) =~= src.take(i as int).push(cur));
        }
        let repeat = i > 0 && out[out.len() - 1] == sorted[i];
        proof {
            if i > 0 {
                assert(texts(out@).last() == out@[out@.len() - 1]@);
            }
        }
        if !repeat {
            let item = sorted[i].clone();
            out.push(item);
            proof {
                lemma_texts_push(before, item);
                let old_texts = texts(before);
                let new_texts = texts(out@);
                assert(new_texts == old_texts.push(cur));
                assert forall|a: int, b: int| 0 <= a < b < new_texts.len() implies text_le(
                    #[trigger] new_texts[a],
                    #[trigger] new_texts[b],
                ) && new_texts[a] != new_texts[b] by {
                    if b == old_texts.len() {
                        assert(new_texts[a] == old_texts[a]);
                        assert(new_texts[b] == cur);
                        assert(old_texts.contains(old_texts[a]));
                        assert(src.take(i as int).contains(old_texts[a]));
                        let m = choose|m: int|
                            0 <= m < src.take(i as int).len() && src.take(i as int)[m]
                                == old_texts[a];
                        assert(src[m] == old_texts[a]);
                        assert(text_le(src[m], src[i as int]));
                        if old_texts[a] == cur {
                            assert(src[i as int - 1] != cur);
                            if m < i as int - 1 {
                                assert(text_le(src[m], src[i as int - 1]));
                                assert(text_le(src[i as int - 1], src[i as int]));
                                lemma_text_le_antisymmetric(src[i as int - 1], cur);
                            }
                            assert(false);
                        }
                    } else {
                        assert(new_texts[a] == old_texts[a]);
                        assert(new_texts[b] == old_texts[b]);
                        assert(text_le(old_texts[a], old_texts[b]) && old_texts[a] != old_texts[b]);
                    }
                }
                assert forall|t: Seq<char>| #[trigger]
                    new_texts.contains(t) <==> src.take(i as int + 1).contains(t) by {
                    lemma_push_contains(old_texts, cur, t);
                    lemma_push_contains(src.take(i as int), cur, t);
                }
            }
        } else {
            proof {
                assert forall|t: Seq<char>| #[trigger]
                    texts(out@).contains(t) <==> src.take(i as int + 1).contains(t) by {
                    lemma_push_contains(src.take(i as int), cur, t);
                    if t == cur {
                        assert(texts(out@)[out@.len() - 1] == cur);
                    }
                }
            }
        }
        i = i + 1;
    }
    proof {
        assert(src.take(sorted@.len() as int) =~= src);
    }
    out
}

/// A list that grew by one item holds what it held and the item.
pub proof fn lemma_push_contains<A>(s: Seq<A>, x: A, t: A)
    ensures
        s.push(x).contains(t) <==> s.contains(t) || t == x,
{
    if s.push(x).contains(t) {
        let k = choose|k: int| 0 <= k < s.push(x).len() && s.push(x)[k] == t;
        if k < s.len() {
            assert(s[k] == t);
        }
    }
    if s.contains(t) {
        let k = choose|k: int| 0 <= k < s.len() && s[k] == t;
        assert(s.push(x)[k] == t);
    }
    if t == x {
        assert(s.push(x)[s.len() as int] == t);
    }
}

impl SecurityToolRegistry {
    /// The tools of a category, in registration order.
    pub fn by_category(&self, category: SecurityCategory) -> (res: Vec<&SecurityTool>)
        ensures
            tool_ref_views(res@) == in_category(self@, category),
    {
        let all = self.tools();
        let mut out: Vec<&SecurityTool> = Vec::new();
        let mut i: usize = 0;
        while i < all.len()
            invariant
                i <= all.len(),
                tool_ref_views(all@) == self@,
                tool_ref_views(out@) == in_category(self@.take(i as int), category),
            decreases all.len() - i,
        {
            let ghost before = out@;
            let tool = all[i];
            proof {
                lemma_category_step(self@, category, i as int);
                assert(self@[i as int] == tool@);
            }
            if tool.category == category {
                out.push(tool);
                proof {
                    assert(tool_ref_views(before.push(tool)) =~= tool_ref_views(before).push(tool@));
                }
            }
            i = i + 1;
        }
        proof {
            assert(self@.take(self@.len() as int) =~= self@);
        }
        out
    }

    /// The tools that the requested tags make visible, in registration
    /// order: every tool when the request holds the reserved tag `all`,
    /// otherwise the tools that share at least one tag with the request.
    pub fn by_tags(&self, tags: &[&str]) -> (res: Vec<&SecurityTool>)
        ensures
            tool_ref_views(res@) == visible_tools(self@, slice_texts(tags@)),
    {
        let all = self.tools();
        let everything = wants_all(tags);
        let mut out: Vec<&SecurityTool> = Vec::new();
        let mut i: usize = 0;
        while i < all.len()
            invariant
                i <= all.len(),
                tool_ref_views(all@) == self@,
                everything == crate::security_tools::matching::grants_all(slice_texts(tags@)),
                tool_ref_views(out@) == visible_tools(self@.take(i as int), slice_texts(tags@)),
            decreases all.len() - i,
        {
            let ghost before = out@;
            let tool = all[i];
            proof {
                lemma_visible_step(self@, slice_texts(tags@), i as int);
                assert(self@[i as int] == tool@);
            }
            if everything || any_tag_in(&tool.tags, tags) {
                out.push(tool);
                proof {
                    assert(tool_ref_views(before.push(tool)) =~= tool_ref_views(before).push(tool@));
                }
            }
            i = i + 1;
        }
        proof {
            assert(self@.take(self@.len() as int) =~= self@);
        }
        out
    }

    /// Every occurrence of a tag in the registry, tool by tool.
    fn tag_occurrences(&self) -> (res: Vec<String>)
        ensures
            forall|t: Seq<char>| texts(res@).contains(t) <==> tag_occurs(self@, t),
    {
        let all = self.tools();
        let mut out: Vec<String> = Vec::new();
        let mut i: usize = 0;
        while i < all.len()
            invariant
                i <= all.len(),
                tool_ref_views(all@) == self@,
                forall|t: Seq<char>| #[trigger]
                    texts(out@).contains(t) <==> tag_occurs(self@.take(i as int), t),
            decreases all.len() - i,
        {
            let tool = all[i];
            let ghost done = self@.take(i as int);
            let ghost start = texts(out@);
            proof {
                assert(self@[i as int] == tool@);
            }
            let mut j: usize = 0;
            while j < tool.tags.len()
                invariant
                    j <= tool.tags.len(),
                    i < all.len(),
                    tool_ref_views(all@) == self@,
                    self@[i as int] == tool@,
                    done == self@.take(i as int),
                    forall|t: Seq<char>| #[trigger] start.contains(t) <==> tag_occurs(done, t),
                    forall|t: Seq<char>| #[trigger]
                        texts(out@).contains(t) <==> start.contains(t) || tool@.tags.take(
                            j as int,
                        ).contains(t),
                decreases tool.tags.len() - j,
            {
                let ghost before = out@;
                let item = tool.tags[j].clone();
                out.push(item);
                proof {
                    lemma_texts_push(before, item);
                    assert(tool@.tags[j as int] == item@);
                    assert(tool@.tags.take(j as int + 1) =~= tool@.tags.take(j as int).push(item@));
                    assert forall|t: Seq<char>| #[trigger]
                        texts(out@).contains(t) <==> start.contains(t) || tool@.tags.take(
                            j as int + 1,
                        ).contains(t) by {
                        lemma_push_contains(texts(before), item@, t);
                        lemma_push_contains(tool@.tags.take(j as int), item@, t);
                        assert(texts(before).contains(t) <==> start.contains(t)
                            || tool@.tags.take(j as int).contains(t));
                    }
                }
                j = j + 1;
            }
            proof {
                assert(tool@.tags.take(tool@.tags.len() as int) =~= tool@.tags);
                let next = self@.take(i as int + 1);
                assert forall|t: Seq<char>| #[trigger]
                    texts(out@).contains(t) <==> tag_occurs(next, t) by {
                    assert(texts(out@).contains(t) <==> start.contains(t) || tool@.tags.contains(t));
                    assert(start.contains(t) <==> tag_occurs(done, t));
                    if tag_occurs(done, t) {
                        let (a, b) = choose|a: int, b: int|
                            0 <= a < done.len() && 0 <= b < done[a].tags.len()
                                && #[trigger] done[a].tags[b] == t;
                        assert(next[a].tags[b] == t);
                    }
                    if tool@.tags.contains(t) {
                        let b = choose|b: int| 0 <= b < tool@.tags.len() && tool@.tags[b] == t;
                        assert(next[i as int].tags[b] == t);
                    }
                    if tag_occurs(next, t) {
                        let (a, b) = choose|a: int, b: int|
                            0 <= a < next.len() && 0 <= b < next[a].tags.len()
                                && #[trigger] next[a].tags[b] == t;
                        if a < i as int {
                            assert(done[a].tags[b] == t);
                        } else {
                            assert(tool@.tags[b] == t);
                        }
                    }
                }
            }
            i = i + 1;
        }
        proof {
            assert(self@.take(self@.len() as int) =~= self@);
        }
        out
    }

    /// All tags that some tool carries, each once, in ascending order.
    pub fn all_tags(&self) -> (res: Vec<String>)
        ensures
            strictly_ascending(texts(res@)),
            forall|t: Seq<char>| texts(res@).contains(t) <==> tag_occurs(self@, t),
    {
        let mut tags = self.tag_occurrences();
        let ghost collected = texts(tags@);
        sort_texts(&mut tags);
        proof {
            let sorted = texts(tags@);
            collected.to_multiset_ensures();
            sorted.to_multiset_ensures();
            assert forall|t: Seq<char>| sorted.contains(t) <==> collected.contains(t) by {
                assert(sorted.contains(t) <==> sorted.to_multiset().count(t) > 0);
                assert(collected.contains(t) <==> collected.to_multiset().count(t) > 0);
            }
        }
        without_repeats(tags)
    }

    /// Whether the tool registered under `tool_id` carries `tag`, letter
    /// case aside. A tool that is not registered carries no tag.
    pub fn has_tag(&self, tool_id: &str, tag: &str) -> (res: bool)
        ensures
            res == tool_has_tag(self@, tool_id@, tag@),
    {
        match self.get(tool_id) {
            None => false,
            Some(tool) => {
                let ghost k = choose|k: int| 0 <= k < self@.len() && self@[k] == tool@;
                let mut j: usize = 0;
                while j < tool.tags.len()
                    invariant
                        j <= tool.tags.len(),
                        0 <= k < self@.len(),
                        self@[k] == tool@,
                        tool@.id == tool_id@,
                        forall|m: int|
                            0 <= m < j ==> !same_ignoring_case(tag@, #[trigger] tool@.tags[m]),
                    decreases tool.tags.len() - j,
                {
                    proof {
                        assert(tool@.tags[j as int] == tool.tags@[j as int]@);
                    }
                    if eq_ignore_ascii_case(tool.tags[j].as_str(), tag) {
                        proof {
                            assert(same_ignoring_case(tag@, tool@.tags[j as int]));
                            assert(tag_wanted(tag@, self@[k].tags));
                        }
                        return true;
                    }
                    j = j + 1;
                }
                proof {
                    if tool_has_tag(self@, tool_id@, tag@) {
                        let i = choose|i: int|
                            0 <= i < self@.len() && (#[trigger] self@[i]).id == tool_id@
                                && tag_wanted(tag@, self@[i].tags);
                        if i != k {
                            assert(self@[i].id != self@[k].id);
                        }
                    }
                }
                false
            },
        }
    }
}

} // verus!
