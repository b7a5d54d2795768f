//! Task templates: the named bundles of instructions, skill references
//! and optional model override that seed a sub-agent's first turn.
//! Template definitions arrive as fenced blocks inside project
//! documents; blocks are framed here, parsed by the caller, and merged
//! by name with later definitions overriding earlier ones. When no
//! definition is found anywhere, a fixed built-in set is used.

use vstd::prelude::*;

use crate::protocol::opt_string_eq;
use crate::text::is_prefix_of;
use crate::text::line_split;
use crate::text::seq_views;
use crate::text::split_lines;
use crate::text::str_eq;
use crate::text::str_starts_with;
use crate::text::str_trim;
use crate::text::str_trim_start;
use crate::text::trim_spec;
use crate::text::trim_start_spec;

verus! {

/// A named task template.
#[derive(Debug)]
pub struct SubAgentTemplate {
    pub name: String,
    pub instructions: String,
    pub skills: Vec<String>,
    pub model: Option<String>,
}

/// The two templates carry the same content.
pub open spec fn template_matches(a: SubAgentTemplate, b: SubAgentTemplate) -> bool {
    &&& a.name@ == b.name@
    &&& a.instructions@ == b.instructions@
    &&& seq_views(a.skills@) == seq_views(b.skills@)
    &&& opt_string_eq(a.model, b.model)
}

impl SubAgentTemplate {
    /// An exact copy.
    pub fn duplicate(&self) -> (r: Self)
        ensures
            template_matches(r, *self),
    {
        let skills = crate::publisher::clone_string_vec(&self.skills);
        SubAgentTemplate {
            name: self.name.clone(),
            instructions: self.instructions.clone(),
            skills,
            model: match &self.model {
                Option::Some(m) => Some(m.clone()),
                Option::None => None,
            },
        }
    }
}

/// Index of the first template with the given name.
pub open spec fn template_index(s: Seq<SubAgentTemplate>, name: Seq<char>) -> Option<int>
    decreases s.len(),
{
    if s.len() == 0 {
        None
    } else if s[0].name@ == name {
        Some(0int)
    } else {
        match template_index(s.drop_first(), name) {
            Option::None => None,
            Option::Some(k) => Some(k + 1),
        }
    }
}

/// A found index is in range and carries the name sought.
pub proof fn lemma_template_index_some(s: Seq<SubAgentTemplate>, name: Seq<char>)
    ensures
        template_index(s, name) matches Some(k) ==> 0 <= k < s.len() && s[k].name@ == name,
    decreases s.len(),
{
    if s.len() > 0 && s[0].name@ != name {
        lemma_template_index_some(s.drop_first(), name);
    }
}

/// The first position with the name is the one found.
pub proof fn lemma_template_index_at(s: Seq<SubAgentTemplate>, name: Seq<char>, k: int)
    requires
        0 <= k < s.len(),
        s[k].name@ == name,
        forall|j: int| 0 <= j < k ==> s[j].name@ != name,
    ensures
        template_index(s, name) == Some(k),
    decreases s.len(),
{
    if s[0].name@ != name {
        let t = s.drop_first();
        assert(forall|j: int| 0 <= j < t.len() ==> t[j] == s[j + 1]);
        lemma_template_index_at(t, name, k - 1);
    }
}

/// A name held by no template is not found.
pub proof fn lemma_template_index_none(s: Seq<SubAgentTemplate>, name: Seq<char>)
    requires
        forall|j: int| 0 <= j < s.len() ==> s[j].name@ != name,
    ensures
        template_index(s, name) is None,
    decreases s.len(),
{
    if s.len() > 0 {
        let t = s.drop_first();
        assert(forall|j: int| 0 <= j < t.len() ==> t[j] == s[j + 1]);
        lemma_template_index_none(t, name);
    }
}

/// Index of the first template with the given name, executably.
pub fn find_template(templates: &Vec<SubAgentTemplate>, name: &str) -> (r: Option<usize>)
    ensures
        r is Some <==> template_index(templates@, name@) is Some,
        r matches Some(k) ==> template_index(templates@, name@) == Some(k as int),
{
    let n = templates.len();
    let mut i: usize = 0;
    while i < n
        invariant
            n == templates@.len(),
            0 <= i <= n,
            forall|j: int| 0 <= j < i ==> templates@[j].name@ != name@,
        decreases n - i,
    {
        if str_eq(templates[i].name.as_str(), name) {
            proof {
                lemma_template_index_at(templates@, name@, i as int);
            }
            return Some(i);
        }
        i += 1;
    }
    proof {
        lemma_template_index_none(templates@, name@);
    }
    None
}

/// The fixed built-in template set used when no definition was
/// discovered in any source document.
pub fn builtin_subagent_templates() -> (r: Vec<SubAgentTemplate>)
    ensures
        r@.len() == 5,
        r@[0].name@ == "inspect"@,
        r@[1].name@ == "implement"@,
        r@[2].name@ == "tests"@,
        r@[3].name@ == "refactor"@,
        r@[4].name@ == "docs"@,
        forall|j: int|
            0 <= j < 5 ==> r@[j].skills@.len() == 0 && r@[j].model is None && trim_spec(
                r@[j].instructions@,
            ).len() > 0,
        template_names_unique(r@),
    {
        let inspect = SubAgentTemplate {
            name: String::from_str("inspect"),
            instructions: String::from_str(
                "Explore and understand the codebase by reading files and summarizing findings. Prefer commands that only read (e.g., git diff, rg/grep, ls, cat/sed). Do not make edits.",
            ),
            skills: Vec::new(),
            model: None,
        };
        let implement = SubAgentTemplate {
            name: String::from_str("implement"),
            instructions: String::from_str(
                "Make focused code changes with minimal diff. Apply repository conventions, run the smallest relevant tests/formatters, and report what changed and why.",
            ),
            skills: Vec::new(),
            model: None,
        };
        let tests = SubAgentTemplate {
            name: String::from_str("tests"),
            instructions: String::from_str(
                "Run the smallest set of tests to validate the change. Prefer fast, scoped commands (e.g., a single crate or a single test). Report commands run and failures clearly.",
            ),
            skills: Vec::new(),
            model: None,
        };
        let refactor = SubAgentTemplate {
            name: String::from_str("refactor"),
            instructions: String::from_str(
                "Refactor with minimal diff and keep behavior unchanged. Prefer mechanical transformations and keep names/structure consistent with the file.",
            ),
            skills: Vec::new(),
            model: None,
        };
        let docs = SubAgentTemplate {
            name: String::from_str("docs"),
            instructions: String::from_str(
                "Update documentation to match the code changes. Keep docs concise and verify any commands/paths mentioned.",
            ),
            skills: Vec::new(),
            model: None,
        };
        let mut r: Vec<SubAgentTemplate> = Vec::new();
        r.push(inspect);
        r.push(implement);
        r.push(tests);
        r.push(refactor);
        r.push(docs);
        proof {
            reveal_strlit("Explore and understand the codebase by reading files and summarizing findings. Prefer commands that only read (e.g., git diff, rg/grep, ls, cat/sed). Do not make edits.");
            reveal_strlit("Make focused code changes with minimal diff. Apply repository conventions, run the smallest relevant tests/formatters, and report what changed and why.");
            reveal_strlit("Run the smallest set of tests to validate the change. Prefer fast, scoped commands (e.g., a single crate or a single test). Report commands run and failures clearly.");
            reveal_strlit("Refactor with minimal diff and keep behavior unchanged. Prefer mechanical transformations and keep names/structure consistent with the file.");
            reveal_strlit("Update documentation to match the code changes. Keep docs concise and verify any commands/paths mentioned.");
            reveal_strlit("inspect");
            reveal_strlit("implement");
            reveal_strlit("tests");
            reveal_strlit("refactor");
            reveal_strlit("docs");
            assert("inspect"@.len() == 7);
            assert("implement"@.len() == 9);
            assert("tests"@.len() == 5);
            assert("refactor"@.len() == 8);
            assert("docs"@.len() == 4);
            assert forall|i: int, j: int| 0 <= i < j < r@.len() implies r@[i].name@
                != r@[j].name@ by {
                assert(r@[i].name@.len() != r@[j].name@.len());
            }
        }
        r
    }

/// The scanner state folded over the lines of a document: outside a
/// block, an opener line (a trim-started line beginning with the
/// fence opener) enters one; inside, a line beginning with three
/// backticks closes it, keeping the block when its trimmed text is
/// non-blank, and any other line joins the block with its line feed.
/// An unterminated block at the end of the document is dropped.
pub open spec fn extract_rec(
    lines: Seq<Seq<char>>,
    opener: Seq<char>,
    in_block: bool,
    buf: Seq<char>,
) -> Seq<Seq<char>>
    decreases lines.len(),
{
    if lines.len() == 0 {
        seq![]
    } else {
        let line = lines.first();
        let rest = lines.drop_first();
        if !in_block {
            if is_prefix_of(trim_start_spec(line), opener) {
                extract_rec(rest, opener, true, Seq::<char>::empty())
            } else {
                extract_rec(rest, opener, false, buf)
            }
        } else {
            if is_prefix_of(trim_start_spec(line), "```"@) {
                let tail = extract_rec(rest, opener, false, Seq::<char>::empty());
                if trim_spec(buf).len() > 0 {
                    seq![buf] + tail
                } else {
                    tail
                }
            } else {
                extract_rec(rest, opener, true, buf + line + seq!['\n'])
            }
        }
    }
}

/// The fenced blocks of the document, for the given fence name.
pub open spec fn extract_spec(contents: Seq<char>, fence: Seq<char>) -> Seq<Seq<char>> {
    extract_rec(line_split(contents), "```"@ + fence, false, Seq::<char>::empty())
}

/// Collects the bodies of fenced blocks opened by a line starting
/// with three backticks and the fence name, in document order.
pub fn extract_fenced_blocks(contents: &str, fence: &str) -> (r: Vec<String>)
    ensures
        seq_views(r@) == extract_spec(contents@, fence@),
{
    let mut opener = String::from_str("```");
    opener.append(fence);
    let ghost all = line_split(contents@);
    let lines = split_lines(contents);
    let mut blocks: Vec<String> = Vec::new();
    let mut in_block = false;
    let mut buf = String::new();
    let n = lines.len();
    let mut i: usize = 0;
    proof {
        assert(all.subrange(0, n as int) =~= all);
    }
    while i < n
        invariant
            n == lines@.len(),
            seq_views(lines@) == all,
            all == line_split(contents@),
            opener@ == "```"@ + fence@,
            0 <= i <= n,
            extract_spec(contents@, fence@) =~= seq_views(blocks@) + extract_rec(
                all.subrange(i as int, n as int),
                opener@,
                in_block,
                buf@,
            ),
            !in_block ==> buf@.len() == 0,
        decreases n - i,
    {
        proof {
            let rest = all.subrange(i as int, n as int);
            assert(seq_views(lines@)[i as int] == lines@[i as int]@);
            assert(rest.first() == all[i as int]);
            assert(rest.drop_first() =~= all.subrange(i as int + 1, n as int));
        }
        let line = lines[i].as_str();
        let t = str_trim_start(line);
        if !in_block {
            if str_starts_with(t, opener.as_str()) {
                in_block = true;
                buf = String::new();
            }
        } else {
            if str_starts_with(t, "```") {
                in_block = false;
                let finished = buf;
                buf = String::new();
                let trimmed = str_trim(finished.as_str());
                if !trimmed.is_empty() {
                    let ghost prev = blocks@;
                    blocks.push(finished);
                    proof {
                        assert(seq_views(blocks@) =~= seq_views(prev) + seq![finished@]);
                    }
                }
            } else {
                buf.append(line);
                buf.append("\n");
                proof {
                    reveal_strlit("\n");
                    assert("\n"@ =~= seq!['\n']);
                }
            }
        }
        i += 1;
    }
    proof {
        assert(all.subrange(n as int, n as int) =~= Seq::<Seq<char>>::empty());
        assert(seq_views(blocks@) =~= extract_spec(contents@, fence@));
    }
    blocks
}

/// All template names are distinct.
pub open spec fn template_names_unique(s: Seq<SubAgentTemplate>) -> bool {
    forall|i: int, j: int| 0 <= i < j < s.len() ==> s[i].name@ != s[j].name@
}

/// One template merged into the collection: a known name is replaced
/// in place, a new one appended.
pub open spec fn upsert_spec(s: Seq<SubAgentTemplate>, t: SubAgentTemplate) -> Seq<
    SubAgentTemplate,
> {
    match template_index(s, t.name@) {
        Option::None => s.push(t),
        Option::Some(k) => s.update(k, t),
    }
}

/// A list of templates merged into the collection, in order.
pub open spec fn merge_list_spec(s: Seq<SubAgentTemplate>, ts: Seq<SubAgentTemplate>) -> Seq<
    SubAgentTemplate,
>
    decreases ts.len(),
{
    if ts.len() == 0 {
        s
    } else {
        merge_list_spec(upsert_spec(s, ts.first()), ts.drop_first())
    }
}

/// When some template holds the name, lookup finds one.
proof fn lemma_template_index_exists(s: Seq<SubAgentTemplate>, name: Seq<char>)
    requires
        exists|j: int| 0 <= j < s.len() && s[j].name@ == name,
    ensures
        template_index(s, name) is Some,
    decreases s.len(),
{
    if s.len() > 0 && s[0].name@ != name {
        let t = s.drop_first();
        let j = choose|j: int| 0 <= j < s.len() && s[j].name@ == name;
        assert(t[j - 1] == s[j]);
        assert(exists|j2: int| 0 <= j2 < t.len() && t[j2].name@ == name) by {
            assert(0 <= j - 1 < t.len() && t[j - 1].name@ == name);
        }
        lemma_template_index_exists(t, name);
    }
}

/// Merging keeps the names distinct.
pub proof fn lemma_upsert_unique(s: Seq<SubAgentTemplate>, t: SubAgentTemplate)
    requires
        template_names_unique(s),
    ensures
        template_names_unique(upsert_spec(s, t)),
{
    lemma_template_index_some(s, t.name@);
    match template_index(s, t.name@) {
        Option::None => {
            let r = s.push(t);
            assert forall|i: int, j: int| 0 <= i < j < r.len() implies r[i].name@ != r[j].name@ by {
                if j == s.len() as int {
                    if s[i].name@ == t.name@ {
                        assert(exists|w: int| 0 <= w < s.len() && s[w].name@ == t.name@) by {
                            assert(0 <= i < s.len() && s[i].name@ == t.name@);
                        }
                        lemma_template_index_exists(s, t.name@);
                    }
                }
            }
        },
        Option::Some(k) => {
            let r = s.update(k, t);
            assert forall|i: int, j: int| 0 <= i < j < r.len() implies r[i].name@ != r[j].name@ by {
                assert(s[k].name@ == t.name@);
            }
        },
    }
}

/// Merges one template into the collection: replaces the template of
/// the same name, or appends a new one.
pub fn upsert_template(templates: &mut Vec<SubAgentTemplate>, t: SubAgentTemplate)
    ensures
        final(templates)@ == upsert_spec(old(templates)@, t),
{
    let idx = find_template(templates, t.name.as_str());
    match idx {
        Option::Some(k) => {
            proof {
                lemma_template_index_some(templates@, t.name@);
            }
            let slot = &mut templates[k];
            *slot = t;
            proof {
                assert(templates@ =~= upsert_spec(old(templates)@, t));
            }
        },
        Option::None => {
            templates.push(t);
        },
    }
}

/// The views of a sequence of template vectors.
pub open spec fn lists_views(v: Seq<Vec<SubAgentTemplate>>) -> Seq<Seq<SubAgentTemplate>> {
    Seq::new(v.len(), |i: int| v[i]@)
}

/// The lists folded into the collection, first list first.
pub open spec fn merge_lists_rec(
    s: Seq<SubAgentTemplate>,
    lists: Seq<Seq<SubAgentTemplate>>,
) -> Seq<SubAgentTemplate>
    decreases lists.len(),
{
    if lists.len() == 0 {
        s
    } else {
        merge_lists_rec(merge_list_spec(s, lists.first()), lists.drop_first())
    }
}

/// All discovered template lists merged by name into one collection,
/// later definitions overriding earlier ones.
pub open spec fn merge_lists_spec(lists: Seq<Seq<SubAgentTemplate>>) -> Seq<SubAgentTemplate> {
    merge_lists_rec(Seq::<SubAgentTemplate>::empty(), lists)
}

/// Merges the template lists parsed from every discovered block, in
/// order, later definitions overriding earlier ones of the same name;
/// when nothing was discovered at all, the built-in set stands in.
pub fn merge_subagent_templates(block_lists: Vec<Vec<SubAgentTemplate>>) -> (r: Vec<
    SubAgentTemplate,
>)
    ensures
        ({
            let merged = merge_lists_spec(lists_views(block_lists@));
            if merged.len() == 0 {
                r@.len() == 5 && r@[0].name@ == "inspect"@ && r@[1].name@ == "implement"@
                    && r@[2].name@ == "tests"@ && r@[3].name@ == "refactor"@ && r@[4].name@
                    == "docs"@
            } else {
                r@ == merged
            }
        }),
        template_names_unique(r@),
{
    let ghost goal = merge_lists_spec(lists_views(block_lists@));
    let mut out: Vec<SubAgentTemplate> = Vec::new();
    let mut lists = block_lists;
    while lists.len() > 0
        invariant
            merge_lists_rec(out@, lists_views(lists@)) == goal,
            template_names_unique(out@),
        decreases lists@.len(),
    {
        let ghost pre_lists = lists@;
        let mut l = lists.remove(0);
        proof {
            assert(lists_views(lists@) =~= lists_views(pre_lists).drop_first());
            assert(lists_views(pre_lists).first() == l@);
        }
        while l.len() > 0
            invariant
                merge_lists_rec(merge_list_spec(out@, l@), lists_views(lists@)) == goal,
                template_names_unique(out@),
            decreases l@.len(),
        {
            let ghost pre_l = l@;
            let t = l.remove(0);
            proof {
                assert(l@ =~= pre_l.drop_first());
                assert(merge_list_spec(out@, pre_l) == merge_list_spec(
                    upsert_spec(out@, t),
                    l@,
                ));
                lemma_upsert_unique(out@, t);
            }
            upsert_template(&mut out, t);
        }
        proof {
            assert(merge_list_spec(out@, l@) == out@);
        }
    }
    proof {
        assert(lists_views(lists@) =~= Seq::<Seq<SubAgentTemplate>>::empty());
        assert(merge_lists_rec(out@, lists_views(lists@)) == out@);
    }
    if out.len() == 0 {
        return builtin_subagent_templates();
    }
    out
}

} // verus!
