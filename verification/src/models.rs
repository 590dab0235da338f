//! The model files that the user can choose from.

use vstd::prelude::*;
use vstd::relations::{sorted_by, total_ordering};
use vstd::seq_lib::lemma_sorted_unique;

use crate::listing::{listed_names, readable};
use crate::settings::{default_settings, Settings};
use crate::text::{lex_le, precedes, views};
use crate::transcribe::{Transcriber, DEFAULT_MODEL_URL};

verus! {

/// Whether `name` ends with `.bin`, as the names of model files do.
pub open spec fn is_model_name(name: Seq<char>) -> bool {
    name.len() >= 4 && name.skip(name.len() - 4) == ".bin"@
}

/// Those of the names that are names of model files.
pub open spec fn model_names(names: Seq<Seq<char>>) -> Seq<Seq<char>>
    decreases names.len(),
{
    if names.len() == 0 {
        Seq::empty()
    } else if is_model_name(names.last()) {
        model_names(names.drop_last()).push(names.last())
    } else {
        model_names(names.drop_last())
    }
}

/// The order in which names are shown.
pub open spec fn name_order() -> spec_fn(Seq<char>, Seq<char>) -> bool {
    |a: Seq<char>, b: Seq<char>| lex_le(a, b)
}

/// Whether `shown` is the model files among `names`, in order.
pub open spec fn shows_models(shown: Seq<Seq<char>>, names: Seq<Seq<char>>) -> bool {
    &&& sorted_by(shown, name_order())
    &&& shown.to_multiset() == model_names(names).to_multiset()
}

/// Whether `name` ends with `.bin`.
fn ends_with_bin(name: &str) -> (r: bool)
    ensures
        r == is_model_name(name@),
{
    let n: usize = name.unicode_len();
    if n < 4 {
        return false;
    }
    let end: String = name.substring_char(n - 4, n).to_owned();
    assert(name@.subrange(n - 4, n as int) =~= name@.skip(n - 4));
    end == ".bin".to_owned()
}

/// Puts `name` where it belongs among names that are in order.
fn insert_in_order(names: &mut Vec<String>, name: String)
    requires
        sorted_by(views(old(names)@), name_order()),
    ensures
        sorted_by(views(final(names)@), name_order()),
        views(final(names)@).to_multiset() == views(old(names)@).to_multiset().insert(name@),
{
    let ghost before = views(names@);
    let mut i: usize = 0;
    while i < names.len() && precedes(names[i].as_str(), name.as_str())
        invariant
            i <= names@.len(),
            before == views(names@),
            forall|k: int| 0 <= k < i ==> lex_le(#[trigger] before[k], name@),
        ensures
            i <= names@.len(),
            forall|k: int| 0 <= k < i ==> lex_le(#[trigger] before[k], name@),
            i < names@.len() ==> !lex_le(before[i as int], name@),
        decreases names@.len() - i,
    {
        i = i + 1;
    }
    let ghost added = name@;
    names.insert(i, name);
    proof {
        lemma_name_order_is_total();
        let after = views(names@);
        assert(after =~= before.insert(i as int, added));
        vstd::seq_lib::to_multiset_insert(before, i as int, added);
        let le = name_order();
        if i < before.len() {
            assert(le(before[i as int], added) || le(added, before[i as int]));
        }
        assert forall|a: int, b: int| 0 <= a < b < after.len() implies #[trigger] le(
            after[a],
            after[b],
        ) by {
            if a < i && b > i {
                assert(le(before[a], before[b - 1]));
            } else if a == i {
                if b - 1 > i {
                    assert(le(before[i as int], before[b - 1]));
                    assert(le(added, before[i as int]));
                }
            } else if a > i {
                assert(le(before[a - 1], before[b - 1]));
            } else if b < i {
                assert(le(before[a], before[b]));
            } else {
                assert(lex_le(before[a], added));
            }
        }
    }
}

/// The model files that the models directory holds, in order. `entries` are the names in
/// the directory, `None` for an entry that cannot be read, and `None` as a whole where
/// the directory cannot be.
pub fn list_models(entries: Option<Vec<Option<String>>>) -> (r: Vec<String>)
    ensures
        shows_models(views(r@), listed_names(entries)),
{
    let ghost all = listed_names(entries);
    let names: Vec<String> = readable(entries);
    let mut found: Vec<String> = Vec::new();
    let mut i: usize = 0;
    assert(views(found@) =~= model_names(all.take(0)));
    while i < names.len()
        invariant
            i <= names@.len(),
            views(names@) == all,
            sorted_by(views(found@), name_order()),
            views(found@).to_multiset() == model_names(all.take(i as int)).to_multiset(),
        decreases names@.len() - i,
    {
        assert(all[i as int] == names@[i as int]@);
        assert(all.take(i + 1).drop_last() =~= all.take(i as int));
        if ends_with_bin(names[i].as_str()) {
            insert_in_order(&mut found, names[i].clone());
            proof {
                vstd::seq_lib::to_multiset_build(
                    model_names(all.take(i as int)),
                    all[i as int],
                );
            }
        }
        i = i + 1;
    }
    assert(all.take(i as int) =~= all);
    found
}

/// What the window shows of the chosen model.
#[derive(Debug)]
pub struct ModelInfo {
    /// Where the model file is expected.
    pub path: String,
    /// Whether it is there.
    pub present: bool,
    /// Where the default model can be had.
    pub url: String,
    /// The name of the chosen model file.
    pub filename: String,
}

/// What the window shows of the chosen model. `present` is whether its file is there.
pub fn model_info(transcriber: &Transcriber, present: bool, settings: &Settings) -> (r: ModelInfo)
    ensures
        r.path@ == transcriber@.model_path,
        r.present == present,
        r.url@ == DEFAULT_MODEL_URL@,
        r.filename@ == settings@.model_file,
{
    ModelInfo {
        path: transcriber.model_path().to_owned(),
        present,
        url: DEFAULT_MODEL_URL.to_owned(),
        filename: settings.model_file.clone(),
    }
}

proof fn lemma_lex_le_total(a: Seq<char>, b: Seq<char>)
    ensures
        lex_le(a, a),
        lex_le(a, b) || lex_le(b, a),
        lex_le(a, b) && lex_le(b, a) ==> a == b,
    decreases a.len(),
{
    if a.len() > 0 && b.len() > 0 {
        lemma_lex_le_total(a.drop_first(), b.drop_first());
        if lex_le(a, b) && lex_le(b, a) {
            assert(a =~= seq![a[0]] + a.drop_first());
            assert(b =~= seq![b[0]] + b.drop_first());
        }
    } else if a.len() > 0 {
        lemma_lex_le_total(a.drop_first(), b);
    } else {
        assert(b.len() == 0 ==> a =~= b);
    }
}

proof fn lemma_lex_le_transitive(a: Seq<char>, b: Seq<char>, c: Seq<char>)
    requires
        lex_le(a, b),
        lex_le(b, c),
    ensures
        lex_le(a, c),
    decreases a.len(),
{
    if a.len() > 0 && a[0] == b[0] && b[0] == c[0] {
        lemma_lex_le_transitive(a.drop_first(), b.drop_first(), c.drop_first());
    }
}

/// The order of names is total.
pub proof fn lemma_name_order_is_total()
    ensures
        total_ordering(name_order()),
{
    let le = name_order();
    assert forall|a: Seq<char>| #[trigger] le(a, a) by {
        lemma_lex_le_total(a, a);
    }
    assert forall|a: Seq<char>, b: Seq<char>| #[trigger]
        le(a, b) && #[trigger] le(b, a) implies a == b by {
        lemma_lex_le_total(a, b);
    }
    assert forall|a: Seq<char>, b: Seq<char>| #[trigger] le(a, b) || #[trigger] le(b, a) by {
        lemma_lex_le_total(a, b);
    }
    assert forall|a: Seq<char>, b: Seq<char>, c: Seq<char>| #[trigger]
        le(a, b) && #[trigger] le(b, c) implies le(a, c) by {
        lemma_lex_le_transitive(a, b, c);
    }
}

proof fn lemma_model_names(names: Seq<Seq<char>>, name: Seq<char>)
    ensures
        model_names(names).to_multiset().count(name) == (if is_model_name(name) {
            names.to_multiset().count(name)
        } else {
            0
        }),
    decreases names.len(),
{
    broadcast use vstd::seq_lib::group_to_multiset_ensures;

    if names.len() > 0 {
        let front = names.drop_last();
        lemma_model_names(front, name);
        assert(names =~= front.push(names.last()));
        vstd::seq_lib::to_multiset_build(front, names.last());
        vstd::seq_lib::to_multiset_build(model_names(front), names.last());
    }
}

/// The order in which the system lists the directory does not show: two listings with the
/// same names show the same models, in the same order.
pub proof fn law_directory_order_does_not_show(
    names1: Seq<Seq<char>>,
    names2: Seq<Seq<char>>,
    shown1: Seq<Seq<char>>,
    shown2: Seq<Seq<char>>,
)
    requires
        names1.to_multiset() == names2.to_multiset(),
        shows_models(shown1, names1),
        shows_models(shown2, names2),
    ensures
        shown1 == shown2,
{
    lemma_name_order_is_total();
    assert forall|name: Seq<char>|
        model_names(names1).to_multiset().count(name) == model_names(names2).to_multiset().count(
            name,
        ) by {
        lemma_model_names(names1, name);
        lemma_model_names(names2, name);
    }
    assert(model_names(names1).to_multiset() =~= model_names(names2).to_multiset());
    lemma_sorted_unique(shown1, shown2, name_order());
}

/// A name is shown exactly where it is in the directory and ends with `.bin`.
pub proof fn law_models_shown_are_the_model_files(
    shown: Seq<Seq<char>>,
    names: Seq<Seq<char>>,
    name: Seq<char>,
)
    requires
        shows_models(shown, names),
    ensures
        shown.contains(name) <==> names.contains(name) && is_model_name(name),
{
    broadcast use vstd::seq_lib::group_to_multiset_ensures;

    lemma_model_names(names, name);
    assert(shown.to_multiset().count(name) == model_names(names).to_multiset().count(name));
}

/// The names of model files are the texts that end with `.bin`, whatever comes before.
pub proof fn law_model_names_end_with_bin(stem: Seq<char>, name: Seq<char>)
    ensures
        is_model_name(stem + ".bin"@),
        is_model_name(name) <==> exists|s: Seq<char>| name == #[trigger] (s + ".bin"@),
{
    reveal_strlit(".bin");
    assert((stem + ".bin"@).skip(stem.len() as int) =~= ".bin"@);
    if is_model_name(name) {
        let s = name.take(name.len() - 4);
        assert(name =~= s + name.skip(name.len() - 4));
        assert(name == s + ".bin"@);
    }
    if exists|s: Seq<char>| name == #[trigger] (s + ".bin"@) {
        let s = choose|s: Seq<char>| name == #[trigger] (s + ".bin"@);
        assert((s + ".bin"@).skip(s.len() as int) =~= ".bin"@);
    }
}

/// Each file whose name ends with `.bin` is shown as often as the directory lists it, no
/// other name is, and a name never stands behind one that comes after it.
pub proof fn law_models_are_shown_in_order(
    shown: Seq<Seq<char>>,
    names: Seq<Seq<char>>,
    stem: Seq<char>,
    other: Seq<char>,
    i: int,
    j: int,
)
    requires
        shows_models(shown, names),
    ensures
        shown.to_multiset().count(stem + ".bin"@) == names.to_multiset().count(stem + ".bin"@),
        (forall|s: Seq<char>| other != #[trigger] (s + ".bin"@)) ==> shown.to_multiset().count(
            other,
        ) == 0,
        0 <= i < j < shown.len() ==> lex_le(shown[i], shown[j]),
{
    law_model_names_end_with_bin(stem, other);
    lemma_model_names(names, stem + ".bin"@);
    lemma_model_names(names, other);
    if 0 <= i < j < shown.len() {
        let le = name_order();
        assert(le(shown[i], shown[j]));
    }
}

/// What the window offers for download is the model that a fresh install asks for.
pub proof fn law_default_model_can_be_had()
    ensures
        DEFAULT_MODEL_URL@ == "https://huggingface.co/ggerganov/whisper.cpp/resolve/main/"@
            + default_settings().model_file,
{
    reveal_strlit("https://huggingface.co/ggerganov/whisper.cpp/resolve/main/");
    reveal_strlit("ggml-small.en.bin");
    reveal_strlit("https://huggingface.co/ggerganov/whisper.cpp/resolve/main/ggml-small.en.bin");
    assert(DEFAULT_MODEL_URL@ =~= "https://huggingface.co/ggerganov/whisper.cpp/resolve/main/"@
        + "ggml-small.en.bin"@);
}

} // verus!
