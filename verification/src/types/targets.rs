//! Targets: source files registered for mutation.

use crate::report::{integer, integer_text};
use crate::text::{append_str, concat3, lemma_utf8_injective, string_from_utf8};
use crate::types::errors::{IoError, IoErrorKind};
use crate::types::language::{is_result_for, language_of_extension, Language};
use crate::cst::SyntaxTree;
use crate::mutations::engine_traits::MutationEngine;
use crate::mutations::registry::{get_mutations_for_language, mutants_of};
use crate::types::config::{is_slug_enabled, slug_enabled, GlobalConfig};
use crate::store::{target_views, MutonStore, StoreView};
use crate::types::hash::sha256;
use crate::types::mutants::{mutant_views, Mutant, MutantView};
use vstd::prelude::*;
use vstd::utf8::*;

verus! {

/// A source file registered for mutation.
#[derive(Clone, Debug)]
pub struct Target {
    pub id: i64,
    /// Absolute path of the file.
    pub path: String,
    /// SHA-256 of the text when the target was registered.
    pub file_hash: crate::types::hash::Hash,
    /// The whole original text.
    pub text: String,
    pub language: Language,
}

/// The text that an edit gives: what stands before the edit, the new text,
/// and what stands after the old text.
pub open spec fn mutated_text(text: Seq<u8>, m: MutantView) -> Seq<u8> {
    text.subrange(0, m.byte_offset as int) + m.new_text + text.subrange(
        m.byte_offset + m.old_text.len(),
        text.len() as int,
    )
}

/// The edit lies inside the text.
pub open spec fn fits(text: Seq<u8>, m: MutantView) -> bool {
    m.byte_offset + m.old_text.len() <= text.len()
}

/// The old text of the edit is what the text holds at the edit's offset.
pub open spec fn byte_exact(text: Seq<u8>, m: MutantView) -> bool {
    fits(text, m) && text.subrange(m.byte_offset as int, m.byte_offset + m.old_text.len())
        == m.old_text
}

/// The message of the error for a mutant of another target.
pub open spec fn other_target_text(mutant_target: i64, target: i64) -> Seq<char> {
    "Mutant applies to target "@ + integer_text(mutant_target as int) + ", not "@ + integer_text(
        target as int,
    )
}

/// A target as the rules see it.
pub struct TargetView {
    pub id: i64,
    pub path: Seq<char>,
    pub file_hash: Seq<u8>,
    pub text: Seq<char>,
    pub language: Language,
}

impl View for Target {
    type V = TargetView;

    open spec fn view(&self) -> TargetView {
        TargetView {
            id: self.id,
            path: self.path@,
            file_hash: self.file_hash@,
            text: self.text@,
            language: self.language,
        }
    }
}

/// Among the first `n` mutants, those whose slug is in use, in their order.
pub open spec fn enabled_upto(
    mutants: Seq<MutantView>,
    slugs: Option<Seq<Seq<char>>>,
    n: nat,
) -> Seq<
    MutantView,
>
    decreases n,
{
    if n == 0 {
        Seq::empty()
    } else if slug_enabled(slugs, mutants[n - 1].mutation_slug) {
        enabled_upto(mutants, slugs, (n - 1) as nat).push(mutants[n - 1])
    } else {
        enabled_upto(mutants, slugs, (n - 1) as nat)
    }
}

impl Target {
    /// A copy of the target.
    pub fn duplicate(&self) -> (r: Target)
        ensures
            r == *self,
    {
        Target {
            id: self.id,
            path: self.path.clone(),
            file_hash: self.file_hash,
            text: self.text.clone(),
            language: self.language,
        }
    }

    /// The UTF-8 bytes of the target's text.
    pub open spec fn bytes(&self) -> Seq<u8> {
        encode_utf8(self.text@)
    }

    /// The mutant belongs to this target, or to no target yet.
    pub open spec fn accepts(&self, m: MutantView) -> bool {
        m.target_id == self.id || m.target_id == 0
    }

    /// The mutants that are generated for the target: those that the
    /// engine of the target's dialect proposes for its text and tree and
    /// whose slug the configuration has in use, in the engine's order.
    pub open spec fn generated(&self, tree: &SyntaxTree, slugs: Option<Seq<Seq<char>>>) -> Seq<
        MutantView,
    > {
        enabled_upto(
            mutants_of(self.language, tree, self.id, self.bytes()),
            slugs,
            mutants_of(self.language, tree, self.id, self.bytes()).len(),
        )
    }

    /// Generates the mutants of the target from the tree of its text: see
    /// [`Target::generated`]. Generation never fails.
    pub fn generate_mutants(&self, tree: &SyntaxTree, cfg: &GlobalConfig) -> (r: Result<
        Vec<Mutant>,
        String,
    >)
        ensures
            r matches Ok(mutants) && mutant_views(mutants@) == self.generated(tree, cfg@.slugs),
    {
        let engine = get_mutations_for_language(&self.language);
        let new_mutants = engine.apply_all_mutations(self, tree);
        let ghost all = mutant_views(new_mutants@);
        assert(all.len() == new_mutants@.len());
        let mut mutants: Vec<Mutant> = Vec::new();
        let mut k: usize = 0;
        assert(mutant_views(mutants@) =~= Seq::<MutantView>::empty());
        while k < new_mutants.len()
            invariant
                k <= new_mutants@.len(),
                all == mutant_views(new_mutants@),
                mutant_views(mutants@) == enabled_upto(all, cfg@.slugs, k as nat),
            decreases new_mutants@.len() - k,
        {
            let ghost earlier = mutant_views(mutants@);
            assert(all[k as int] == new_mutants@[k as int]@);
            if is_slug_enabled(cfg, new_mutants[k].mutation_slug.as_str()) {
                mutants.push(new_mutants[k].duplicate());
                assert(mutant_views(mutants@) =~= earlier.push(new_mutants@[k as int]@));
            }
            k += 1;
        }
        Ok(mutants)
    }

    /// The text of the target with the mutant's edit applied.
    ///
    /// A mutant of another target is refused as invalid input, wherever
    /// its edit lies, with a message that names both targets. An edit
    /// whose result is not UTF-8 is refused as invalid data.
    pub fn mutate(&self, mutant: &Mutant) -> (r: Result<String, IoError>)
        requires
            self.accepts(mutant@) ==> fits(self.bytes(), mutant@),
        ensures
            match r {
                Ok(s) => self.accepts(mutant@) && encode_utf8(s@) == mutated_text(
                    self.bytes(),
                    mutant@,
                ),
                Err(e) => if !self.accepts(mutant@) {
                    e.kind == IoErrorKind::InvalidInput && e.message@ == other_target_text(
                        mutant.target_id,
                        self.id,
                    )
                } else {
                    e.kind == IoErrorKind::InvalidData && !valid_utf8(
                        mutated_text(self.bytes(), mutant@),
                    )
                },
            },
    {
        if mutant.target_id != self.id && mutant.target_id != 0 {
            let message = append_str(
                append_str(
                    append_str(
                        "Mutant applies to target ".to_owned(),
                        integer(mutant.target_id).as_str(),
                    ),
                    ", not ",
                ),
                integer(self.id).as_str(),
            );
            return Err(IoError::new(IoErrorKind::InvalidInput, message.as_str()));
        }
        let content = self.text.as_str().as_bytes();
        let old_len = mutant.old_text.as_str().as_bytes().len();
        let offset = mutant.byte_offset as usize;
        let total = content.len();
        let prefix = &content[0..offset];
        let suffix = &content[offset + old_len..total];
        let mutated = concat3(prefix, mutant.new_text.as_str().as_bytes(), suffix);
        match string_from_utf8(mutated) {
            Some(s) => Ok(s),
            None => Err(IoError::new(IoErrorKind::InvalidData, "Mutated text is not valid UTF-8")),
        }
    }
}

/// Applying an edit whose old text is what the target holds changes the
/// text exactly when the new text differs from the old.
pub proof fn lemma_mutation_changes_text(text: Seq<u8>, m: MutantView)
    requires
        byte_exact(text, m),
    ensures
        (mutated_text(text, m) != text) <==> (m.old_text != m.new_text),
{
    let pre = text.subrange(0, m.byte_offset as int);
    let end = m.byte_offset + m.old_text.len();
    let suf = text.subrange(end, text.len() as int);
    assert(text =~= pre + m.old_text + suf);
    if m.old_text == m.new_text {
        assert(mutated_text(text, m) =~= text);
    }
    if mutated_text(text, m) == text {
        let out = pre + m.new_text + suf;
        assert(out.len() == pre.len() + m.new_text.len() + suf.len());
        assert(m.new_text.len() == m.old_text.len());
        assert forall|k: int| 0 <= k < m.new_text.len() implies m.new_text[k] == m.old_text[k] by {
            assert(out[pre.len() + k] == m.new_text[k]);
            assert((pre + m.old_text + suf)[pre.len() + k] == m.old_text[k]);
        }
        assert(m.new_text =~= m.old_text);
    }
}

/// The same law on strings: the mutated text is another string than the
/// original exactly when the mutant's new text is another string than its
/// old text.
pub proof fn lemma_mutate_round_trip(target: Target, mutant: Mutant, mutated: String)
    requires
        byte_exact(target.bytes(), mutant@),
        encode_utf8(mutated@) == mutated_text(target.bytes(), mutant@),
    ensures
        (mutated@ != target.text@) <==> (mutant.old_text@ != mutant.new_text@),
{
    lemma_mutation_changes_text(target.bytes(), mutant@);
    if mutated@ != target.text@ {
        if encode_utf8(mutated@) == encode_utf8(target.text@) {
            lemma_utf8_injective(mutated@, target.text@);
        }
    }
    if mutant.old_text@ != mutant.new_text@ {
        if encode_utf8(mutant.old_text@) == encode_utf8(mutant.new_text@) {
            lemma_utf8_injective(mutant.old_text@, mutant.new_text@);
        }
    }
}

/// Idempotent generation. Generating the mutants of a target twice, from
/// the same tree and with the same slugs in use, gives the same mutants in
/// the same order: offset, old text, new text and slug agree one by one.
pub proof fn lemma_generation_repeats(
    target: Target,
    tree: &SyntaxTree,
    slugs: Option<Seq<Seq<char>>>,
    first: Seq<Mutant>,
    second: Seq<Mutant>,
)
    requires
        mutant_views(first) == target.generated(tree, slugs),
        mutant_views(second) == target.generated(tree, slugs),
    ensures
        first.len() == second.len(),
        forall|k: int|
            0 <= k < first.len() ==> (#[trigger] first[k])@.identity() == second[k]@.identity(),
{
    assert(mutant_views(first).len() == first.len());
    assert(mutant_views(second).len() == second.len());
    assert forall|k: int| 0 <= k < first.len() implies (#[trigger] first[k])@.identity()
        == second[k]@.identity() by {
        assert(mutant_views(first)[k] == first[k]@);
        assert(mutant_views(second)[k] == second[k]@);
    }
}

/// A file that was read: its path and its text.
pub struct SourceFile {
    pub path: String,
    pub text: String,
}

/// The dialect that was found for file `k`; none where the list is
/// shorter than the files.
pub open spec fn language_at(languages: Seq<Option<Language>>, k: int) -> Option<Language> {
    if 0 <= k < languages.len() {
        languages[k]
    } else {
        None
    }
}

/// The store and the targets after the first `n` files were loaded, where
/// `languages` holds the dialect of each file. A file without a dialect
/// is passed over. Every other file is added to the store as a target
/// with the hash of its text, or found there by that hash; the target
/// carries the id that the store gave.
pub open spec fn loaded_upto(
    store: StoreView,
    files: Seq<SourceFile>,
    languages: Seq<Option<Language>>,
    n: nat,
) -> (StoreView, Seq<TargetView>)
    decreases n,
{
    if n == 0 {
        (store, Seq::empty())
    } else {
        let (earlier, targets) = loaded_upto(store, files, languages, (n - 1) as nat);
        let file = files[n - 1];
        match language_at(languages, n - 1) {
            Some(language) => {
                let target = TargetView {
                    id: 0,
                    path: file.path@,
                    file_hash: sha256(encode_utf8(file.text@)),
                    text: file.text@,
                    language,
                };
                let (added, id) = earlier.with_target(target);
                (added, targets.push(TargetView { id, ..target }))
            },
            None => (earlier, targets),
        }
    }
}

/// What loading gives: the targets and the store after all files, or the
/// error of a store that has no id left, with the store as it was then.
pub open spec fn is_loaded(
    before: StoreView,
    files: Seq<SourceFile>,
    languages: Seq<Option<Language>>,
    after: StoreView,
    r: Result<Vec<Target>, IoError>,
) -> bool {
    match r {
        Ok(targets) => (after, target_views(targets@)) == loaded_upto(
            before,
            files,
            languages,
            files.len(),
        ),
        Err(e) => e.kind == IoErrorKind::Other && exists|k: nat|
            k < files.len() && after == (#[trigger] loaded_upto(before, files, languages, k)).0
                && after.next_target_id == i64::MAX,
    }
}

/// The dialect is the one that some extension of the path names, or
/// none where that extension names none or the path has no extension.
/// Only a path that holds a `.` has an extension.
pub open spec fn is_dialect_of(path: Seq<char>, language: Option<Language>) -> bool {
    exists|extension: Option<Seq<char>>|
        (extension is Some ==> path.contains('.')) && language == found_by(
            #[trigger] language_of_extension(extension),
        )
}

/// The dialect that a result holds, if it holds one.
pub open spec fn found_by(r: Result<Language, Seq<char>>) -> Option<Language> {
    match r {
        Ok(l) => Some(l),
        Err(_) => None,
    }
}

/// Each file has the dialect that an extension of its path names, or
/// none.
pub open spec fn are_languages_of(
    files: Seq<SourceFile>,
    languages: Seq<Option<Language>>,
) -> bool {
    &&& languages.len() == files.len()
    &&& forall|k: int|
        0 <= k < files.len() ==> is_dialect_of(files[k].path@, #[trigger] languages[k])
}

/// Among the first `n` targets, those at the path.
pub open spec fn at_path_upto(targets: Seq<TargetView>, path: Seq<char>, n: nat) -> Seq<TargetView>
    decreases n,
{
    if n == 0 {
        Seq::empty()
    } else if targets[n - 1].path == path {
        at_path_upto(targets, path, (n - 1) as nat).push(targets[n - 1])
    } else {
        at_path_upto(targets, path, (n - 1) as nat)
    }
}

impl Target {
    /// Registers files as targets, given the dialect of each file: see
    /// [`loaded_upto`]. A store that has no id left for a new target is
    /// an error.
    pub fn load_resolved(
        files: Vec<SourceFile>,
        languages: &Vec<Option<Language>>,
        store: &mut MutonStore,
    ) -> (r: Result<Vec<Target>, IoError>)
        requires
            old(store)@.well_formed(),
        ensures
            final(store)@.well_formed(),
            is_loaded(old(store)@, files@, languages@, final(store)@, r),
    {
        let ghost start = store@;
        let mut targets: Vec<Target> = Vec::new();
        let mut k: usize = 0;
        assert(target_views(targets@) =~= Seq::<TargetView>::empty());
        while k < files.len()
            invariant
                k <= files@.len(),
                start == old(store)@,
                store@.well_formed(),
                (store@, target_views(targets@)) == loaded_upto(
                    start,
                    files@,
                    languages@,
                    k as nat,
                ),
            decreases files@.len() - k,
        {
            let ghost earlier = target_views(targets@);
            let file = &files[k];
            let found: Option<Language> = if k < languages.len() {
                languages[k]
            } else {
                None
            };
            assert(found == language_at(languages@, k as int));
            match found {
                Some(language) => {
                    let hash = crate::types::hash::Hash::digest(file.text.clone());
                    let target = Target {
                        id: 0,
                        path: file.path.clone(),
                        file_hash: hash,
                        text: file.text.clone(),
                        language,
                    };
                    match store.add_target(target.duplicate()) {
                        Ok(id) => {
                            let stored = Target {
                                id,
                                path: target.path,
                                file_hash: target.file_hash,
                                text: target.text,
                                language: target.language,
                            };
                            targets.push(stored);
                            assert(target_views(targets@) =~= earlier.push(stored@));
                        },
                        Err(_) => {
                            assert(store@ == loaded_upto(start, files@, languages@, k as nat).0);
                            return Err(IoError::new(IoErrorKind::Other, "Failed to store target"));
                        },
                    }
                },
                None => {},
            }
            k += 1;
        }
        Ok(targets)
    }

    /// Registers files as targets: the dialect of each file is found by
    /// the extension of its path, and the files are then loaded as
    /// [`Target::load_resolved`] says. The files are those that were
    /// found at a path and are not excluded.
    pub fn load_targets(files: Vec<SourceFile>, store: &mut MutonStore) -> (r: Result<
        Vec<Target>,
        IoError,
    >)
        requires
            old(store)@.well_formed(),
        ensures
            final(store)@.well_formed(),
            exists|languages: Seq<Option<Language>>|
                are_languages_of(files@, languages) && #[trigger] is_loaded(
                    old(store)@,
                    files@,
                    languages,
                    final(store)@,
                    r,
                ),
    {
        let mut languages: Vec<Option<Language>> = Vec::new();
        let mut k: usize = 0;
        while k < files.len()
            invariant
                k <= files@.len(),
                languages@.len() == k,
                forall|n: int|
                    0 <= n < k ==> is_dialect_of(files@[n].path@, #[trigger] languages@[n]),
            decreases files@.len() - k,
        {
            let result = Language::from_path(files[k].path.as_str());
            let found = match result {
                Ok(language) => Some(language),
                Err(_) => None,
            };
            proof {
                let path = files@[k as int].path@;
                let extension = choose|extension: Option<Seq<char>>| #[trigger]
                    is_result_for(path, extension, result);
                assert(found == found_by(language_of_extension(extension)));
                assert(is_dialect_of(path, found));
            }
            languages.push(found);
            k += 1;
        }
        assert(are_languages_of(files@, languages@));
        Target::load_resolved(files, &languages, store)
    }

    /// The targets of the store: all of them, or those at the path.
    pub fn filter_by_path(store: &MutonStore, target_path: Option<&str>) -> (r: Vec<Target>)
        ensures
            target_views(r@) == match target_path {
                Some(path) => at_path_upto(store@.targets, path@, store@.targets.len()),
                None => store@.targets,
            },
    {
        let all = store.get_all_targets();
        match target_path {
            Some(path) => {
                let ghost views = target_views(all@);
                let mut out: Vec<Target> = Vec::new();
                let mut k: usize = 0;
                assert(target_views(out@) =~= Seq::<TargetView>::empty());
                assert(views.len() == all@.len());
                while k < all.len()
                    invariant
                        k <= all@.len(),
                        views == target_views(all@),
                        views.len() == all@.len(),
                        target_views(out@) == at_path_upto(views, path@, k as nat),
                    decreases all@.len() - k,
                {
                    let ghost earlier = target_views(out@);
                    assert(views[k as int] == all@[k as int]@);
                    if crate::text::str_eq(all[k].path.as_str(), path) {
                        out.push(all[k].duplicate());
                        assert(target_views(out@) =~= earlier.push(all@[k as int]@));
                    }
                    k += 1;
                }
                out
            },
            None => all,
        }
    }
}

} // verus!
