//! Planning the extraction of an archive: where each entry goes, and the
//! refusal of entries that would escape the output directory.

use vstd::prelude::*;
use crate::text::{views, split_spec, join_spec, split_char, join_strings, replace_char,
    replace_char_spec, eq_str, lemma_split_nonempty, free_of, lemma_split_pieces_free, lemma_split_join};
use crate::paths::{join_path, path_join_spec, strip_extension, strip_extension_spec};

verus! {

/// The component `..`.
pub open spec fn parent_ref() -> Seq<char> {
    seq!['.', '.']
}

/// A piece of a path that names something: neither empty nor `.`.
pub open spec fn is_normal_piece(p: Seq<char>) -> bool {
    p.len() > 0 && p != seq!['.']
}

/// The pieces of `ps` that name something, in order.
pub open spec fn normal_pieces(ps: Seq<Seq<char>>) -> Seq<Seq<char>>
    decreases ps.len(),
{
    if ps.len() == 0 {
        ps
    } else {
        let prev = normal_pieces(ps.drop_last());
        if is_normal_piece(ps.last()) {
            prev.push(ps.last())
        } else {
            prev
        }
    }
}

/// The pieces of an entry name between separators (`/` or `\`).
pub open spec fn entry_pieces(name: Seq<char>) -> Seq<Seq<char>> {
    split_spec(replace_char_spec(name, '\\', '/'), '/')
}

/// Whether the first component of `name` is a root or a leading `.`: these
/// count as a component, as `Path::components` yields them.
pub open spec fn has_lead_component(name: Seq<char>) -> bool {
    let ps = entry_pieces(name);
    (name.len() > 0 && ps[0].len() == 0) || ps[0] == seq!['.']
}

/// The components of an entry name once its top-level directory component is removed.
pub open spec fn stripped_components(name: Seq<char>) -> Seq<Seq<char>> {
    let body = normal_pieces(entry_pieces(name));
    if has_lead_component(name) {
        body
    } else if body.len() == 0 {
        body
    } else {
        body.skip(1)
    }
}

/// Whether the entry name, without its top-level component, climbs to a parent.
pub open spec fn has_parent_ref(name: Seq<char>) -> bool {
    stripped_components(name).contains(parent_ref())
}

/// Where the entry lands, relative to the output directory.
pub open spec fn entry_relative(name: Seq<char>) -> Seq<char> {
    join_spec(stripped_components(name), seq!['/'])
}

/// Why an archive cannot be extracted.
#[derive(Clone, Debug, PartialEq, Eq)]
pub enum ExtractError {
    /// The named entry would be written outside the output directory.
    UnsafePath(String),
}

/// What an archive says of one entry.
#[derive(Clone, Debug)]
pub struct ArchiveEntry {
    pub name: String,
    pub is_dir: bool,
    pub compressed_size: u64,
    pub uncompressed_size: u64,
}

/// One step of an extraction: create the directory `target`, or write entry
/// `index` to the file `target` after creating its parent directories.
#[derive(Clone, Debug)]
pub struct ExtractStep {
    pub index: usize,
    pub is_dir: bool,
    pub relative: String,
    pub target: String,
}

/// Everything an extraction writes, decided before anything is written.
#[derive(Clone, Debug)]
pub struct ExtractionPlan {
    pub output_dir: String,
    pub steps: Vec<ExtractStep>,
    pub total_size: u64,
}

/// The path of an entry relative to the output directory, once its top-level
/// directory component is removed; refused when it climbs to a parent.
pub fn strip_entry_path(name: &str) -> (r: Result<String, ExtractError>)
    ensures
        r is Err <==> has_parent_ref(name@),
        r matches Ok(p) ==> p@ == entry_relative(name@),
        r matches Err(ExtractError::UnsafePath(n)) ==> n@ == name@,
{
    proof {
        reveal_strlit("/");
        reveal_strlit(".");
        reveal_strlit("..");
        assert("/"@ =~= seq!['/']);
        assert("."@ =~= seq!['.']);
        assert(".."@ =~= parent_ref());
    }
    let normalized = replace_char(name, '\\', "/");
    let pieces = split_char(normalized.as_str(), '/');
    let ghost ps = entry_pieces(name@);
    proof {
        lemma_split_nonempty(normalized@, '/');
    }
    let mut body: Vec<String> = Vec::new();
    let mut i: usize = 0;
    while i < pieces.len()
        invariant
            views(pieces@) == ps,
            "."@ == seq!['.'],
            0 <= i <= pieces.len(),
            views(body@) == normal_pieces(ps.subrange(0, i as int)),
        decreases pieces.len() - i,
    {
        proof {
            assert(ps.subrange(0, i as int + 1).drop_last() =~= ps.subrange(0, i as int));
            assert(ps.subrange(0, i as int + 1).last() == pieces@[i as int]@);
        }
        let p = pieces[i].as_str();
        if p.unicode_len() > 0 && !eq_str(p, ".") {
            let ghost before = views(body@);
            body.push(String::from_str(p));
            proof {
                assert(views(body@) =~= before.push(p@));
            }
        }
        i += 1;
    }
    proof {
        assert(ps.subrange(0, pieces.len() as int) =~= ps);
    }
    let first = pieces[0].as_str();
    let lead = (name.unicode_len() > 0 && first.unicode_len() == 0) || eq_str(first, ".");
    let start: usize = if lead || body.len() == 0 { 0 } else { 1 };
    proof {
        assert(lead == has_lead_component(name@));
        let sc = stripped_components(name@);
        assert(sc =~= views(body@).subrange(start as int, body@.len() as int));
    }
    let mut kept: Vec<String> = Vec::new();
    let mut j: usize = start;
    while j < body.len()
        invariant
            start <= j <= body.len(),
            ".."@ == parent_ref(),
            stripped_components(name@) =~= views(body@).subrange(start as int, body@.len() as int),
            views(kept@) =~= views(body@).subrange(start as int, j as int),
            forall|t: int| 0 <= t < kept@.len() ==> kept@[t]@ != parent_ref(),
        decreases body.len() - j,
    {
        if eq_str(body[j].as_str(), "..") {
            proof {
                let sc = stripped_components(name@);
                assert(sc[j - start] == parent_ref());
            }
            return Err(ExtractError::UnsafePath(String::from_str(name)));
        }
        let ghost before = views(kept@);
        kept.push(String::from_str(body[j].as_str()));
        proof {
            assert(views(kept@) =~= before.push(body@[j as int]@));
        }
        j += 1;
    }
    proof {
        let sc = stripped_components(name@);
        assert(sc =~= views(kept@));
        assert(!sc.contains(parent_ref()));
    }
    Ok(join_strings(&kept, "/"))
}

proof fn lemma_normal_pieces_keep(ps: Seq<Seq<char>>, c: char)
    requires
        forall|i: int| 0 <= i < ps.len() ==> free_of(#[trigger] ps[i], c),
    ensures
        forall|i: int| 0 <= i < normal_pieces(ps).len() ==> free_of(#[trigger] normal_pieces(ps)[i], c),
    decreases ps.len(),
{
    if ps.len() > 0 {
        let prev = normal_pieces(ps.drop_last());
        assert forall|i: int| 0 <= i < ps.drop_last().len() implies free_of(
            #[trigger] ps.drop_last()[i],
            c,
        ) by {
            assert(ps.drop_last()[i] == ps[i]);
        }
        lemma_normal_pieces_keep(ps.drop_last(), c);
        assert forall|i: int| 0 <= i < normal_pieces(ps).len() implies free_of(
            #[trigger] normal_pieces(ps)[i],
            c,
        ) by {
            if i < prev.len() {
                assert(normal_pieces(ps)[i] == prev[i]);
            } else {
                assert(free_of(ps[ps.len() - 1], c));
            }
        }
    }
}

/// An entry accepted for extraction lands inside the output directory: the path
/// relative to it, read back component by component, never climbs to a parent.
pub proof fn lemma_accepted_entry_stays_inside(name: Seq<char>)
    requires
        !has_parent_ref(name),
    ensures
        !split_spec(entry_relative(name), '/').contains(parent_ref()),
{
    let norm = replace_char_spec(name, '\\', '/');
    lemma_split_pieces_free(norm, '/');
    lemma_normal_pieces_keep(entry_pieces(name), '/');
    let body = normal_pieces(entry_pieces(name));
    let sc = stripped_components(name);
    assert forall|i: int| 0 <= i < sc.len() implies free_of(#[trigger] sc[i], '/') by {
        if has_lead_component(name) || body.len() == 0 {
            assert(sc[i] == body[i]);
        } else {
            assert(sc[i] == body[i + 1]);
        }
    }
    if sc.len() >= 1 {
        lemma_split_join(sc, '/');
    } else {
        assert(entry_relative(name) =~= Seq::<char>::empty());
        assert(split_spec(entry_relative(name), '/') =~= seq![Seq::<char>::empty()]);
        assert(split_spec(entry_relative(name), '/')[0] != parent_ref());
    }
}

/// The sum of the uncompressed sizes of `entries`.
pub open spec fn total_uncompressed(entries: Seq<ArchiveEntry>) -> int
    decreases entries.len(),
{
    if entries.len() == 0 {
        0
    } else {
        total_uncompressed(entries.drop_last()) + entries.last().uncompressed_size
    }
}

/// The first entry whose name climbs to a parent, if any.
pub open spec fn first_unsafe(entries: Seq<ArchiveEntry>) -> int
    decreases entries.len(),
{
    if entries.len() == 0 {
        -1
    } else if first_unsafe(entries.drop_last()) >= 0 {
        first_unsafe(entries.drop_last())
    } else if has_parent_ref(entries.last().name@) {
        entries.len() - 1
    } else {
        -1
    }
}

proof fn lemma_first_unsafe(entries: Seq<ArchiveEntry>)
    ensures
        -1 <= first_unsafe(entries) < entries.len(),
        first_unsafe(entries) >= 0 ==> has_parent_ref(entries[first_unsafe(entries)].name@),
        forall|i: int| 0 <= i < entries.len() && (first_unsafe(entries) < 0 || i < first_unsafe(entries))
            ==> !has_parent_ref(#[trigger] entries[i].name@),
    decreases entries.len(),
{
    if entries.len() > 0 {
        lemma_first_unsafe(entries.drop_last());
        assert forall|i: int| 0 <= i < entries.len() && (first_unsafe(entries) < 0 || i
            < first_unsafe(entries)) implies !has_parent_ref(#[trigger] entries[i].name@) by {
            if i < entries.len() - 1 {
                assert(entries[i] == entries.drop_last()[i]);
            }
        }
    }
}

/// Decides every step of extracting `archive_path` before anything is written.
/// The output directory is the archive path without its extension; an entry
/// whose name, without its top-level component, climbs to a parent refuses the
/// whole archive.
pub fn plan_extraction(archive_path: &str, entries: &Vec<ArchiveEntry>) -> (r: Result<
    ExtractionPlan,
    ExtractError,
>)
    ensures
        r is Err <==> exists|i: int| 0 <= i < entries@.len() && has_parent_ref(#[trigger] entries@[i].name@),
        r matches Err(ExtractError::UnsafePath(n)) ==> n@ == entries@[first_unsafe(entries@)].name@
            && has_parent_ref(n@),
        r matches Ok(plan) ==> {
            &&& plan.output_dir@ == strip_extension_spec(archive_path@)
            &&& plan.steps@.len() == entries@.len()
            &&& plan.total_size == if total_uncompressed(entries@) > u64::MAX { u64::MAX as int }
                else { total_uncompressed(entries@) }
            &&& forall|i: int| 0 <= i < entries@.len() ==> {
                let st = #[trigger] plan.steps@[i];
                &&& st.index == i
                &&& st.is_dir == entries@[i].is_dir
                &&& st.relative@ == entry_relative(entries@[i].name@)
                &&& st.target@ == path_join_spec(plan.output_dir@, st.relative@)
            }
        },
{
    proof {
        lemma_first_unsafe(entries@);
    }
    let output_dir = strip_extension(archive_path);
    let mut steps: Vec<ExtractStep> = Vec::new();
    let mut total: u64 = 0;
    let mut i: usize = 0;
    while i < entries.len()
        invariant
            0 <= i <= entries@.len(),
            first_unsafe(entries@) < 0 || i <= first_unsafe(entries@),
            steps@.len() == i,
            total == if total_uncompressed(entries@.subrange(0, i as int)) > u64::MAX {
                u64::MAX as int
            } else {
                total_uncompressed(entries@.subrange(0, i as int))
            },
            forall|k: int| 0 <= k < i ==> {
                let st = #[trigger] steps@[k];
                &&& st.index == k
                &&& st.is_dir == entries@[k].is_dir
                &&& st.relative@ == entry_relative(entries@[k].name@)
                &&& st.target@ == path_join_spec(output_dir@, st.relative@)
            },
        decreases entries.len() - i,
    {
        proof {
            lemma_first_unsafe(entries@);
        }
        let e = &entries[i];
        match strip_entry_path(e.name.as_str()) {
            Err(err) => {
                proof {
                    assert(has_parent_ref(entries@[i as int].name@));
                    assert(first_unsafe(entries@) == i);
                }
                return Err(err);
            },
            Ok(rel) => {
                let target = join_path(output_dir.as_str(), rel.as_str());
                steps.push(ExtractStep { index: i, is_dir: e.is_dir, relative: rel, target });
                proof {
                    assert(entries@.subrange(0, i as int + 1).drop_last() =~= entries@.subrange(
                        0,
                        i as int,
                    ));
                    if first_unsafe(entries@) == i {
                        assert(has_parent_ref(entries@[i as int].name@));
                    }
                }
                total = total.saturating_add(e.uncompressed_size);
                i += 1;
            },
        }
    }
    proof {
        assert(entries@.subrange(0, i as int) =~= entries@);
        assert forall|k: int| 0 <= k < entries@.len() implies !has_parent_ref(
            #[trigger] entries@[k].name@,
        ) by {}
    }
    Ok(ExtractionPlan { output_dir, steps, total_size: total })
}

} // verus!
