//! Properties of the parser as a whole, stated over the models that the
//! executable functions' contracts use.
use vstd::prelude::*;

use crate::answers::{lookup, AnswersModel, RequestModel};
use crate::images::{
    base64_of, byte_len, image_size, image_tag, jpeg_data_url, DATA_URL_PREFIX, MAXIMUM_B64_SIZE,
};
use crate::model::ElementModel;
use crate::resolver::{
    add_resolved, first_date, first_name, fold_tags, insert_page, page_slot, parse_spec, posts_spec,
    ParsedModel,
};
use crate::text::split_on;

verus! {

/// Parsing the same text twice with the same answers gives the same model:
/// the same elements in the same order, and the same pages.
pub proof fn lemma_parse_idempotent(text: Seq<char>, first: AnswersModel, second: AnswersModel, depth: nat)
    requires
        first == second,
    ensures
        parse_spec(text, first, depth) == parse_spec(text, second, depth),
{
}

/// An image is inlined as its data URL when that takes at most the allowed
/// number of bytes; otherwise it keeps its relative URL and is marked for
/// copying; an image that cannot be read gives nothing.
pub proof fn lemma_image_inline_or_copy(payload: Seq<char>, env: AnswersModel)
    ensures
        ({
            let url = split_on(payload, ',')[0];
            let size = image_size(payload);
            match lookup(env.images, (url, size)) {
                Some(Some(data_url)) => if byte_len(data_url) <= MAXIMUM_B64_SIZE {
                    image_tag(payload, env) == Ok::<Option<ElementModel>, RequestModel>(
                        Some(ElementModel::Image(data_url, false, size)),
                    )
                } else {
                    image_tag(payload, env) == Ok::<Option<ElementModel>, RequestModel>(
                        Some(ElementModel::Image(url, true, size)),
                    )
                },
                Some(None) => image_tag(payload, env) == Ok::<Option<ElementModel>, RequestModel>(
                    None,
                ),
                None => image_tag(payload, env) == Err::<Option<ElementModel>, RequestModel>(
                    RequestModel::InlineImage(url, size),
                ),
            }
        }),
{
}

/// The inline encoding of an image is a data URL of an image.
pub proof fn lemma_data_url_is_image(jpeg: Seq<u8>)
    ensures
        jpeg_data_url(jpeg) matches Some(u) ==> u.take(11) == "data:image/"@,
{
    reveal_strlit("data:image/jpg;base64,");
    reveal_strlit("data:image/");
    if let Some(u) = jpeg_data_url(jpeg) {
        assert(u == DATA_URL_PREFIX@ + base64_of(jpeg));
        assert(u.take(11) =~= "data:image/"@);
    }
}

/// Every registered page holds a `Name` element, and is registered under
/// the first one.
pub open spec fn pages_named(p: ParsedModel) -> bool {
    forall|k: int| 0 <= k < p.pages.len() ==> first_name(#[trigger] p.pages[k].1) == Some(p.pages[k].0)
}

proof fn lemma_page_slot_bounds(pages: Seq<(Seq<char>, Seq<ElementModel>)>, name: Seq<char>, i: int)
    ensures
        page_slot(pages, name, i) matches Some(k) ==> 0 <= k < pages.len() && pages[k].0 == name,
    decreases pages.len() - i,
{
    if 0 <= i < pages.len() && pages[i].0 != name {
        lemma_page_slot_bounds(pages, name, i + 1);
    }
}

proof fn lemma_add_resolved_named(p: ParsedModel, r: Option<crate::resolver::Resolved>)
    requires
        pages_named(p),
    ensures
        pages_named(add_resolved(p, r)),
{
    if let Some(crate::resolver::Resolved::Page(els)) = r {
        if let Some(n) = first_name(els) {
            lemma_page_slot_bounds(p.pages, n, 0);
            let q = insert_page(p.pages, n, els);
            assert forall|k: int| 0 <= k < q.len() implies first_name(#[trigger] q[k].1) == Some(
                q[k].0,
            ) by {
                if k < p.pages.len() {
                    if q[k] != p.pages[k] {
                        assert(q[k] == (n, els));
                    }
                }
            }
        }
    }
}

proof fn lemma_fold_named(tags: Seq<Seq<char>>, n: nat, env: AnswersModel, depth: nat)
    ensures
        fold_tags(tags, n, env, depth) matches Ok(p) ==> pages_named(p),
    decreases n,
{
    if n > 0 && n <= tags.len() {
        lemma_fold_named(tags, (n - 1) as nat, env, depth);
        if let Ok(p) = fold_tags(tags, (n - 1) as nat, env, depth) {
            if let Ok(r) = crate::resolver::tag_spec(tags[n - 1], env, depth) {
                lemma_add_resolved_named(p, r);
            }
        }
    }
}

/// A page is registered only when it holds a `Name` element, and under the
/// text of its first one.
pub proof fn lemma_pages_are_named(text: Seq<char>, env: AnswersModel, depth: nat)
    ensures
        parse_spec(text, env, depth) matches Ok(p) ==> pages_named(p),
{
    if let Some(tags) = crate::tags::extract(text) {
        lemma_fold_named(tags, tags.len(), env, depth);
    }
}

/// No two registered pages share a name.
pub open spec fn names_unique(p: ParsedModel) -> bool {
    forall|i: int, j: int|
        0 <= i < p.pages.len() && 0 <= j < p.pages.len() && i != j ==> #[trigger] p.pages[i].0
            != #[trigger] p.pages[j].0
}

proof fn lemma_page_slot_none(pages: Seq<(Seq<char>, Seq<ElementModel>)>, name: Seq<char>, i: int)
    requires
        0 <= i,
        page_slot(pages, name, i) is None,
    ensures
        forall|k: int| i <= k < pages.len() ==> #[trigger] pages[k].0 != name,
    decreases pages.len() - i,
{
    if i < pages.len() {
        lemma_page_slot_none(pages, name, i + 1);
    }
}

proof fn lemma_fold_unique(tags: Seq<Seq<char>>, n: nat, env: AnswersModel, depth: nat)
    ensures
        fold_tags(tags, n, env, depth) matches Ok(p) ==> names_unique(p),
    decreases n,
{
    if n > 0 && n <= tags.len() {
        lemma_fold_unique(tags, (n - 1) as nat, env, depth);
        if let Ok(p) = fold_tags(tags, (n - 1) as nat, env, depth) {
            if let Ok(Some(crate::resolver::Resolved::Page(els))) = crate::resolver::tag_spec(
                tags[n - 1],
                env,
                depth,
            ) {
                if let Some(name) = first_name(els) {
                    lemma_page_slot_bounds(p.pages, name, 0);
                    if page_slot(p.pages, name, 0) is None {
                        lemma_page_slot_none(p.pages, name, 0);
                    }
                    let q = insert_page(p.pages, name, els);
                    assert forall|i: int, j: int|
                        0 <= i < q.len() && 0 <= j < q.len() && i != j implies #[trigger] q[i].0
                        != #[trigger] q[j].0 by {
                        if i < p.pages.len() && j < p.pages.len() {
                            assert(p.pages[i].0 != p.pages[j].0);
                        }
                    }
                }
            }
        }
    }
}

/// A name registers at most one page: a later page of the same name
/// replaces the earlier one.
pub proof fn lemma_page_names_unique(text: Seq<char>, env: AnswersModel, depth: nat)
    ensures
        parse_spec(text, env, depth) matches Ok(p) ==> names_unique(p),
{
    if let Some(tags) = crate::tags::extract(text) {
        lemma_fold_unique(tags, tags.len(), env, depth);
    }
}

/// Every blog post holds a `Date` element, and carries the first one as its
/// date.
pub proof fn lemma_posts_are_dated(files: Seq<Seq<char>>, n: nat, env: AnswersModel, depth: nat)
    ensures
        posts_spec(files, n, env, depth) matches Ok(ps) ==> forall|k: int|
            0 <= k < ps.len() ==> first_date(#[trigger] ps[k].elements) == Some(ps[k].date),
    decreases n,
{
    if n > 0 && n <= files.len() {
        lemma_posts_are_dated(files, (n - 1) as nat, env, depth);
    }
}

/// How many of the first `n` files parse, with the answers given, to
/// elements that include a `Date`.
pub open spec fn dated_files(files: Seq<Seq<char>>, n: nat, env: AnswersModel, depth: nat) -> nat
    decreases n,
{
    if n == 0 || n > files.len() {
        0
    } else {
        let earlier = dated_files(files, (n - 1) as nat, env, depth);
        match parse_spec(files[n - 1], env, depth) {
            Ok(p) => if first_date(p.elements) is Some {
                earlier + 1
            } else {
                earlier
            },
            Err(_) => earlier,
        }
    }
}

/// A blog has one post for each of its files that holds a `Date` element,
/// and none for the others.
pub proof fn lemma_one_post_per_dated_file(files: Seq<Seq<char>>, n: nat, env: AnswersModel, depth: nat)
    ensures
        posts_spec(files, n, env, depth) matches Ok(ps) ==> ps.len() == dated_files(files, n, env, depth),
    decreases n,
{
    if n > 0 && n <= files.len() {
        lemma_one_post_per_dated_file(files, (n - 1) as nat, env, depth);
    }
}

} // verus!
