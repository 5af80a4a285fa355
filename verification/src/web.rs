//! The website's one route: dispatch on query parameters to a point lookup,
//! a tag-matched random pick, or a plain random pick, with the comma-joined
//! tag parameter parsed and the tag list rendered here, verified.

use crate::error::RecipeError;
use crate::recipe::{any_match, has_id, tag_match, tag_views, Recipe, RecipeStore};
use vstd::prelude::*;

verus! {

/// The query parameters of the `/` route: an optional recipe identifier and
/// an optional comma-joined tag list.
pub struct GetRecipeParams {
    pub id: Option<String>,
    pub tags: Option<String>,
}

/// What a comma-joined list splits into: pieces between commas, in order,
/// each without a comma; `n` commas give `n + 1` pieces.
pub open spec fn split_commas_spec(s: Seq<char>) -> Seq<Seq<char>>
    decreases s.len(),
{
    if s.len() == 0 {
        seq![Seq::<char>::empty()]
    } else {
        let rest = split_commas_spec(s.drop_last());
        if s.last() == ',' {
            rest.push(Seq::<char>::empty())
        } else {
            rest.update(rest.len() - 1, rest.last().push(s.last()))
        }
    }
}

/// The elements joined with the separator between consecutive ones.
pub open spec fn join_with(elems: Seq<Seq<char>>, sep: Seq<char>) -> Seq<char>
    decreases elems.len(),
{
    if elems.len() == 0 {
        Seq::<char>::empty()
    } else if elems.len() == 1 {
        elems[0]
    } else {
        join_with(elems.drop_last(), sep) + sep + elems.last()
    }
}

/// A split always yields at least one piece.
pub proof fn lemma_split_nonempty(s: Seq<char>)
    ensures
        split_commas_spec(s).len() >= 1,
    decreases s.len(),
{
    if s.len() > 0 {
        lemma_split_nonempty(s.drop_last());
    }
}

/// No piece of a split contains a comma.
pub proof fn lemma_split_no_comma(s: Seq<char>)
    ensures
        forall|k: int|
            0 <= k < split_commas_spec(s).len() ==> !(#[trigger] split_commas_spec(
                s,
            )[k]).contains(','),
    decreases s.len(),
{
    if s.len() == 0 {
        assert forall|k: int|
            0 <= k < split_commas_spec(s).len() implies !(#[trigger] split_commas_spec(
            s,
        )[k]).contains(',') by {
            assert(split_commas_spec(s)[k] =~= Seq::<char>::empty());
        }
    } else {
        lemma_split_no_comma(s.drop_last());
        lemma_split_nonempty(s.drop_last());
    }
}

/// Extending the last element by one character extends the join by that
/// character.
proof fn lemma_join_last_push(elems: Seq<Seq<char>>, c: char, sep: Seq<char>)
    requires
        elems.len() > 0,
    ensures
        join_with(elems.update(elems.len() - 1, elems.last().push(c)), sep) =~= join_with(
            elems,
            sep,
        ).push(c),
{
    let u = elems.update(elems.len() - 1, elems.last().push(c));
    if elems.len() == 1 {
        assert(u[0] =~= elems[0].push(c));
    } else {
        assert(u.drop_last() =~= elems.drop_last());
        assert(u.last() =~= elems.last().push(c));
        assert((join_with(elems.drop_last(), sep) + sep + elems.last()).push(c) =~= join_with(
            elems.drop_last(),
            sep,
        ) + sep + elems.last().push(c));
    }
}

/// Joining the pieces of a split with a comma restores the split input:
/// splitting loses nothing and invents nothing.
pub proof fn lemma_split_join(s: Seq<char>)
    ensures
        join_with(split_commas_spec(s), ","@) == s,
    decreases s.len(),
{
    reveal_strlit(",");
    if s.len() == 0 {
        assert(join_with(split_commas_spec(s), ","@) =~= s);
    } else {
        lemma_split_join(s.drop_last());
        lemma_split_nonempty(s.drop_last());
        let rest = split_commas_spec(s.drop_last());
        if s.last() == ',' {
            let w = rest.push(Seq::<char>::empty());
            assert(w.drop_last() =~= rest);
            assert(join_with(w, ","@) =~= join_with(rest, ","@) + ","@ + Seq::<char>::empty());
            assert(join_with(rest, ","@) + ","@ + Seq::<char>::empty() =~= s.drop_last().push(','));
            assert(s.drop_last().push(s.last()) =~= s);
        } else {
            lemma_join_last_push(rest, s.last(), ","@);
            assert(join_with(rest, ","@).push(s.last()) =~= s.drop_last().push(s.last()));
            assert(s.drop_last().push(s.last()) =~= s);
        }
    }
}

/// Splits a comma-joined tag list into its pieces.
pub fn split_commas(s: &String) -> (r: Vec<String>)
    ensures
        tag_views(r@) == split_commas_spec(s@),
{
    let n = s.as_str().unicode_len();
    let mut pieces: Vec<String> = Vec::new();
    let mut start: usize = 0;
    let mut i: usize = 0;
    proof {
        assert(tag_views(pieces@).push(s@.subrange(0, 0)) =~~= split_commas_spec(s@.take(0)));
    }
    while i < n
        invariant
            0 <= start <= i <= n,
            n == s@.len(),
            tag_views(pieces@).push(s@.subrange(start as int, i as int)) =~= split_commas_spec(
                s@.take(i as int),
            ),
        decreases n - i,
    {
        let ghost prev_pieces = tag_views(pieces@);
        let ghost prev_start = start as int;
        let c = s.as_str().get_char(i);
        if c == ',' {
            let piece = String::from_str(s.as_str().substring_char(start, i));
            pieces.push(piece);
            start = i + 1;
        }
        proof {
            let prev = s@.take(i as int);
            let next = s@.take(i + 1);
            assert(next.drop_last() =~= prev);
            assert(next.last() == s@[i as int]);
            if c == ',' {
                assert(tag_views(pieces@) =~= prev_pieces.push(
                    s@.subrange(prev_start, i as int),
                ));
                assert(split_commas_spec(next) =~= split_commas_spec(prev).push(
                    Seq::<char>::empty(),
                ));
                assert(s@.subrange(start as int, i + 1) =~= Seq::<char>::empty());
                assert(tag_views(pieces@).push(s@.subrange(start as int, i + 1))
                    =~= split_commas_spec(next));
            } else {
                let cur = s@.subrange(prev_start, i as int);
                let whole = prev_pieces.push(cur);
                lemma_split_nonempty(prev);
                assert(split_commas_spec(next) =~= whole.update(
                    whole.len() - 1,
                    whole.last().push(s@[i as int]),
                ));
                assert(whole.update(whole.len() - 1, whole.last().push(s@[i as int]))
                    =~= prev_pieces.push(cur.push(s@[i as int])));
                assert(s@.subrange(start as int, i + 1) =~= cur.push(s@[i as int]));
            }
        }
        i = i + 1;
    }
    let last_piece = String::from_str(s.as_str().substring_char(start, n));
    pieces.push(last_piece);
    proof {
        assert(s@.take(n as int) =~= s@);
        assert(tag_views(pieces@) =~= split_commas_spec(s@));
    }
    pieces
}

/// Joins the strings with the separator between consecutive ones.
pub fn join_strings(tags: &Vec<String>, sep: &str) -> (s: String)
    ensures
        s@ == join_with(tag_views(tags@), sep@),
{
    let mut s = String::new();
    let mut i: usize = 0;
    while i < tags.len()
        invariant
            0 <= i <= tags@.len(),
            s@ =~= join_with(tag_views(tags@).take(i as int), sep@),
        decreases tags@.len() - i,
    {
        if i > 0 {
            s.append(sep);
        }
        s.append(tags[i].as_str());
        proof {
            let all = tag_views(tags@);
            let next = all.take(i + 1);
            assert(next.drop_last() =~= all.take(i as int));
            assert(next.last() == all[i as int]);
            if i == 0 {
                assert(s@ =~= join_with(next, sep@));
            } else {
                assert(join_with(next, sep@) =~= join_with(all.take(i as int), sep@) + sep@
                    + all[i as int]);
            }
        }
        i = i + 1;
    }
    proof {
        assert(tag_views(tags@).take(tags@.len() as int) =~= tag_views(tags@));
    }
    s
}

/// The response of the `/` route: either a rendered recipe page, or a
/// redirect to the page of a chosen recipe identifier.
#[derive(Debug)]
pub enum RecipePage {
    Page { recipe: Recipe, tags: String },
    Redirect { id: String },
}

/// Serves the `/` route from its query parameters.
///
/// An identifier fetches that very recipe for rendering, with its tags
/// joined by a comma and a space. Otherwise a comma-joined tag parameter
/// picks a random recipe carrying one of those tags and redirects to it,
/// falling back to a plain random pick when nothing matches; with no
/// parameters a plain random pick redirects. Fails with `NotFound` exactly
/// when a requested identifier is absent, or when no identifier was given
/// and the store is empty.
pub fn get_recipe(store: &RecipeStore, params: &GetRecipeParams) -> (r: Result<
    RecipePage,
    RecipeError,
>)
    ensures
        match r {
            Ok(page) => match page {
                RecipePage::Page { recipe, tags } => {
                    &&& params.id matches Some(id) && recipe@.id == id@
                    &&& exists|i: int|
                        0 <= i < store@.len() && (#[trigger] store@[i]).recipe == recipe@ && tags@
                            == join_with(store@[i].tags, ", "@)
                },
                RecipePage::Redirect { id } => {
                    &&& params.id is None
                    &&& has_id(store@, id@)
                    &&& match params.tags {
                        Some(t) => any_match(store@, split_commas_spec(t@)) ==> exists|i: int|
                            0 <= i < store@.len() && (#[trigger] store@[i]).recipe.id == id@
                                && tag_match(store@[i], split_commas_spec(t@)),
                        None => true,
                    }
                },
            },
            Err(e) => e == RecipeError::NotFound,
        },
        r is Err <==> (match params.id {
            Some(id) => !has_id(store@, id@),
            None => store@.len() == 0,
        }),
{
    if let Some(id) = &params.id {
        return match store.get(id) {
            Ok((recipe, tags)) => {
                let joined = join_strings(&tags, ", ");
                Ok(RecipePage::Page { recipe, tags: joined })
            },
            Err(_) => Err(RecipeError::NotFound),
        };
    }
    if let Some(t) = &params.tags {
        let candidates = split_commas(t);
        match store.get_random_from_tags(candidates) {
            Ok((recipe, _)) => {
                return Ok(RecipePage::Redirect { id: recipe.id });
            },
            Err(_) => {
                // no candidate tag matched: fall back to a plain random pick
            },
        }
    }
    match store.get_random() {
        Ok((recipe, _)) => Ok(RecipePage::Redirect { id: recipe.id }),
        Err(_) => Err(RecipeError::NotFound),
    }
}

} // verus!
