//! The recipe store: an in-memory relation of recipe rows and their tag
//! association rows, with point lookup, uniform random lookup, any-of tag
//! matching, and atomic insertion.

use crate::error::RecipeError;
use vstd::prelude::*;

verus! {

/// A recipe row: identifier, title, ingredients text, instructions text and
/// source attribution.
#[derive(Debug)]
pub struct Recipe {
    pub id: String,
    pub title: String,
    pub ingredients: String,
    pub instructions: String,
    pub recipe_source: String,
}

/// The mathematical value of a [`Recipe`]: each field as a character sequence.
pub ghost struct RecipeView {
    pub id: Seq<char>,
    pub title: Seq<char>,
    pub ingredients: Seq<char>,
    pub instructions: Seq<char>,
    pub recipe_source: Seq<char>,
}

impl View for Recipe {
    type V = RecipeView;

    open spec fn view(&self) -> RecipeView {
        RecipeView {
            id: self.id@,
            title: self.title@,
            ingredients: self.ingredients@,
            instructions: self.instructions@,
            recipe_source: self.recipe_source@,
        }
    }
}

impl Clone for Recipe {
    fn clone(&self) -> (r: Self)
        ensures
            r@ == self@,
    {
        Recipe {
            id: self.id.clone(),
            title: self.title.clone(),
            ingredients: self.ingredients.clone(),
            instructions: self.instructions.clone(),
            recipe_source: self.recipe_source.clone(),
        }
    }
}

/// The sequence of character-sequence values of a sequence of strings.
pub open spec fn tag_views(tags: Seq<String>) -> Seq<Seq<char>> {
    tags.map_values(|t: String| t@)
}

/// One stored record: a recipe row together with its tag association rows.
pub struct StoredRecipe {
    pub recipe: Recipe,
    pub tags: Vec<String>,
}

/// The mathematical value of a [`StoredRecipe`].
pub ghost struct StoredRecipeView {
    pub recipe: RecipeView,
    pub tags: Seq<Seq<char>>,
}

impl View for StoredRecipe {
    type V = StoredRecipeView;

    open spec fn view(&self) -> StoredRecipeView {
        StoredRecipeView { recipe: self.recipe@, tags: tag_views(self.tags@) }
    }
}

/// A record carries at least one tag from the candidate set.
pub open spec fn tag_match(r: StoredRecipeView, cands: Seq<Seq<char>>) -> bool {
    exists|i: int| 0 <= i < r.tags.len() && cands.contains(r.tags[i])
}

/// Some record of the store carries at least one candidate tag.
pub open spec fn any_match(s: Seq<StoredRecipeView>, cands: Seq<Seq<char>>) -> bool {
    exists|i: int| 0 <= i < s.len() && tag_match(s[i], cands)
}

/// Some record of the store has the given identifier.
pub open spec fn has_id(s: Seq<StoredRecipeView>, id: Seq<char>) -> bool {
    exists|i: int| 0 <= i < s.len() && s[i].recipe.id == id
}

/// No two records of the store share an identifier.
pub open spec fn distinct_ids(s: Seq<StoredRecipeView>) -> bool {
    forall|i: int, j: int| 0 <= i < j < s.len() ==> s[i].recipe.id != s[j].recipe.id
}

/// Under the store invariant an identifier pins its record: two records
/// with the same identifier are one and the same.
pub proof fn lemma_id_unique(s: Seq<StoredRecipeView>, i: int, j: int)
    requires
        distinct_ids(s),
        0 <= i < s.len(),
        0 <= j < s.len(),
        s[i].recipe.id == s[j].recipe.id,
    ensures
        i == j,
{
}

/// The returned pair equals the stored record: same recipe row, same tags.
pub open spec fn returns_record(r: StoredRecipeView, recipe: Recipe, tags: Seq<String>) -> bool {
    r.recipe == recipe@ && r.tags == tag_views(tags)
}

/// Draws an index below `n`, uniformly.
///
/// Relies on `fastrand::usize`: a uniformly random value in the given range;
/// the range must not be empty, or the call panics.
#[verifier::external_body]
fn random_below(n: usize) -> (r: usize)
    requires
        n > 0,
    ensures
        r < n,
{
    fastrand::usize(..n)
}

/// True when some string of `v` has the value `s`.
fn string_in(v: &Vec<String>, s: &String) -> (b: bool)
    ensures
        b == tag_views(v@).contains(s@),
{
    let mut i: usize = 0;
    while i < v.len()
        invariant
            0 <= i <= v@.len(),
            forall|j: int| 0 <= j < i ==> tag_views(v@)[j] != s@,
        decreases v@.len() - i,
    {
        if v[i] == *s {
            assert(tag_views(v@)[i as int] == s@);
            return true;
        }
        i = i + 1;
    }
    false
}

/// True when the record carries at least one tag of the candidate set.
fn record_matches(r: &StoredRecipe, cands: &Vec<String>) -> (b: bool)
    ensures
        b == tag_match(r@, tag_views(cands@)),
{
    let mut i: usize = 0;
    while i < r.tags.len()
        invariant
            0 <= i <= r.tags@.len(),
            forall|j: int| 0 <= j < i ==> !tag_views(cands@).contains(r@.tags[j]),
        decreases r.tags@.len() - i,
    {
        if string_in(cands, &r.tags[i]) {
            assert(r@.tags[i as int] == r.tags@[i as int]@);
            return true;
        }
        i = i + 1;
    }
    false
}

/// Clones a vector of strings, value for value.
fn clone_tags(v: &Vec<String>) -> (r: Vec<String>)
    ensures
        tag_views(r@) == tag_views(v@),
{
    let mut r: Vec<String> = Vec::new();
    let mut i: usize = 0;
    while i < v.len()
        invariant
            0 <= i <= v@.len(),
            r@.len() == i,
            forall|j: int| 0 <= j < i ==> tag_views(r@)[j] == tag_views(v@)[j],
        decreases v@.len() - i,
    {
        r.push(v[i].clone());
        i = i + 1;
    }
    assert(tag_views(r@) =~= tag_views(v@));
    r
}

impl StoredRecipe {
    /// Clones the record, fields and tags alike.
    fn duplicate(&self) -> (r: Self)
        ensures
            r@ == self@,
    {
        let r = StoredRecipe { recipe: self.recipe.clone(), tags: clone_tags(&self.tags) };
        r
    }
}

/// The in-memory recipe store. Records are kept in insertion order and no
/// two records share an identifier.
pub struct RecipeStore {
    recipes: Vec<StoredRecipe>,
}

impl View for RecipeStore {
    type V = Seq<StoredRecipeView>;

    closed spec fn view(&self) -> Seq<StoredRecipeView> {
        self.recipes@.map_values(|r: StoredRecipe| r@)
    }
}

impl RecipeStore {
    /// Every identifier appears on at most one record.
    pub open spec fn wf(&self) -> bool {
        distinct_ids(self@)
    }

    /// An empty store.
    pub fn new() -> (s: Self)
        ensures
            s@ =~= Seq::<StoredRecipeView>::empty(),
            s.wf(),
    {
        RecipeStore { recipes: Vec::new() }
    }

    /// The number of stored recipes.
    pub fn len(&self) -> (n: usize)
        ensures
            n == self@.len(),
    {
        self.recipes.len()
    }

    /// True when a record with the given identifier exists.
    pub fn contains_id(&self, id: &String) -> (b: bool)
        ensures
            b == has_id(self@, id@),
    {
        let mut i: usize = 0;
        while i < self.recipes.len()
            invariant
                0 <= i <= self@.len(),
                forall|j: int| 0 <= j < i ==> self@[j].recipe.id != id@,
            decreases self@.len() - i,
        {
            if self.recipes[i].recipe.id == *id {
                assert(self@[i as int].recipe.id == id@);
                return true;
            }
            i = i + 1;
        }
        false
    }

    /// Point lookup: the recipe with the given identifier and its tags.
    ///
    /// Returns `Ok` exactly when the identifier exists; the returned recipe
    /// carries that very identifier and equals the stored record.
    pub fn get(&self, recipe_id: &String) -> (r: Result<(Recipe, Vec<String>), RecipeError>)
        ensures
            r is Ok <==> has_id(self@, recipe_id@),
            r matches Err(e) ==> e == RecipeError::NotFound,
            r matches Ok(p) ==> p.0@.id == recipe_id@ && exists|i: int|
                0 <= i < self@.len() && (#[trigger] self@[i]).recipe.id == recipe_id@
                    && returns_record(self@[i], p.0, p.1@),
            self.wf() ==> (r matches Ok(p) ==> forall|i: int|
                0 <= i < self@.len() && (#[trigger] self@[i]).recipe.id == recipe_id@
                    ==> returns_record(self@[i], p.0, p.1@)),
    {
        let mut i: usize = 0;
        while i < self.recipes.len()
            invariant
                0 <= i <= self@.len(),
                forall|j: int| 0 <= j < i ==> self@[j].recipe.id != recipe_id@,
            decreases self@.len() - i,
        {
            if self.recipes[i].recipe.id == *recipe_id {
                let rec = self.recipes[i].duplicate();
                assert(self@[i as int] == self.recipes@[i as int]@);
                proof {
                    if self.wf() {
                        assert forall|j: int|
                            0 <= j < self@.len() && (#[trigger] self@[j]).recipe.id
                                == recipe_id@ implies j == i as int by {
                            lemma_id_unique(self@, j, i as int);
                        }
                    }
                }
                return Ok((rec.recipe, rec.tags));
            }
            i = i + 1;
        }
        Err(RecipeError::NotFound)
    }

    /// Random lookup: a recipe drawn uniformly over all stored recipes.
    ///
    /// Fails with `NotFound` exactly when the store is empty; otherwise the
    /// returned pair equals some stored record.
    pub fn get_random(&self) -> (r: Result<(Recipe, Vec<String>), RecipeError>)
        ensures
            r is Err <==> self@.len() == 0,
            r matches Err(e) ==> e == RecipeError::NotFound,
            r matches Ok(p) ==> exists|i: int|
                0 <= i < self@.len() && returns_record(#[trigger] self@[i], p.0, p.1@),
    {
        if self.recipes.len() == 0 {
            return Err(RecipeError::NotFound);
        }
        let idx = random_below(self.recipes.len());
        let rec = self.recipes[idx].duplicate();
        assert(self@[idx as int] == self.recipes@[idx as int]@);
        Ok((rec.recipe, rec.tags))
    }

    /// Tag lookup: a recipe drawn uniformly over the distinct recipes that
    /// carry at least one candidate tag.
    ///
    /// An empty candidate set fails with `NotFound` at once; it never matches
    /// everything. Each matching recipe enters the pool once, however many of
    /// its tags matched. Fails with `NotFound` exactly when no recipe matches.
    pub fn get_random_from_tags(&self, tags: Vec<String>) -> (r: Result<
        (Recipe, Vec<String>),
        RecipeError,
    >)
        ensures
            tags@.len() == 0 ==> r == Err::<(Recipe, Vec<String>), RecipeError>(
                RecipeError::NotFound,
            ),
            r is Ok <==> tags@.len() > 0 && any_match(self@, tag_views(tags@)),
            r matches Err(e) ==> e == RecipeError::NotFound,
            r matches Ok(p) ==> exists|i: int|
                0 <= i < self@.len() && tag_match(#[trigger] self@[i], tag_views(tags@))
                    && returns_record(self@[i], p.0, p.1@),
    {
        if tags.len() == 0 {
            return Err(RecipeError::NotFound);
        }
        let mut pool: Vec<usize> = Vec::new();
        let mut i: usize = 0;
        while i < self.recipes.len()
            invariant
                0 <= i <= self@.len(),
                forall|k: int| 0 <= k < pool@.len() ==> (#[trigger] pool@[k]) < i,
                forall|k: int| 0 <= k < pool@.len() ==> tag_match(
                    self@[pool@[k] as int],
                    tag_views(tags@),
                ),
                pool@.len() == 0 ==> forall|j: int| 0 <= j < i ==> !tag_match(
                    #[trigger] self@[j],
                    tag_views(tags@),
                ),
            decreases self@.len() - i,
        {
            if record_matches(&self.recipes[i], &tags) {
                assert(self@[i as int] == self.recipes@[i as int]@);
                pool.push(i);
            }
            i = i + 1;
        }
        if pool.len() == 0 {
            return Err(RecipeError::NotFound);
        }
        let k = random_below(pool.len());
        let idx = pool[k];
        let rec = self.recipes[idx].duplicate();
        assert(self@[idx as int] == self.recipes@[idx as int]@);
        Ok((rec.recipe, rec.tags))
    }

    /// Atomic insertion of a recipe row and all its tag association rows.
    ///
    /// Fails with `Conflict`, leaving the store unchanged, exactly when the
    /// identifier already exists; otherwise the whole record is appended as
    /// one unit, with repeated tag values stored once. No partial
    /// recipe-and-tags state is ever visible.
    pub fn add(&mut self, recipe: JSONRecipe) -> (r: Result<(), RecipeError>)
        requires
            old(self).wf(),
        ensures
            final(self).wf(),
            r is Err <==> has_id(old(self)@, recipe.id@),
            r matches Err(e) ==> e == RecipeError::Conflict && final(self)@ == old(self)@,
            r is Ok ==> final(self)@ =~= old(self)@.push(stored_of(recipe)),
    {
        if self.contains_id(&recipe.id) {
            return Err(RecipeError::Conflict);
        }
        let ghost prev = self@;
        let ghost added = stored_of(recipe);
        let (row, tags) = recipe.to_recipe();
        let tags = dedup_tags(&tags);
        self.recipes.push(StoredRecipe { recipe: row, tags });
        proof {
            assert(self@ =~= prev.push(added));
            assert forall|i: int, j: int| 0 <= i < j < self@.len() implies self@[i].recipe.id
                != self@[j].recipe.id by {
                if j == prev.len() {
                    assert(prev[i].recipe.id != added.recipe.id);
                }
            }
        }
        Ok(())
    }

    /// Bulk import: inserts each record in turn, each as its own atomic
    /// unit, skipping records whose identifier is already taken, and
    /// returns how many were inserted.
    pub fn import(&mut self, recipes: &Vec<JSONRecipe>) -> (n: usize)
        requires
            old(self).wf(),
        ensures
            final(self).wf(),
            final(self)@ == import_spec(old(self)@, recipes@),
            old(self)@.len() + n == final(self)@.len(),
    {
        let mut n: usize = 0;
        let mut i: usize = 0;
        while i < recipes.len()
            invariant
                self.wf(),
                0 <= i <= recipes@.len(),
                n <= i,
                self@ =~= import_spec(old(self)@, recipes@.take(i as int)),
                old(self)@.len() + n == self@.len(),
            decreases recipes@.len() - i,
        {
            let r = recipes[i].duplicate();
            match self.add(r) {
                Ok(()) => {
                    n = n + 1;
                },
                Err(_) => {
                },
            }
            proof {
                let next = recipes@.take(i + 1);
                assert(next.drop_last() =~= recipes@.take(i as int));
                assert(next.last() == recipes@[i as int]);
            }
            i = i + 1;
        }
        proof {
            assert(recipes@.take(recipes@.len() as int) =~= recipes@);
        }
        n
    }
}

/// The record that storing a body value creates: the recipe fields and the
/// tag values, repeated tags dropped with first occurrences kept in order.
pub open spec fn stored_of(j: JSONRecipe) -> StoredRecipeView {
    StoredRecipeView {
        recipe: RecipeView {
            id: j.id@,
            title: j.title@,
            ingredients: j.ingredients@,
            instructions: j.instructions@,
            recipe_source: j.source@,
        },
        tags: dedup_views(tag_views(j.tags@)),
    }
}

/// The store after importing each record in turn: a record whose identifier
/// is already taken is skipped, the others are appended in order, each as
/// its own atomic unit.
pub open spec fn import_spec(s: Seq<StoredRecipeView>, rs: Seq<JSONRecipe>) -> Seq<
    StoredRecipeView,
>
    decreases rs.len(),
{
    if rs.len() == 0 {
        s
    } else {
        let prev = import_spec(s, rs.drop_last());
        let v = stored_of(rs.last());
        if has_id(prev, v.recipe.id) {
            prev
        } else {
            prev.push(v)
        }
    }
}

/// A recipe as it travels in request and response bodies: the recipe fields
/// together with its tags.
#[derive(Debug)]
pub struct JSONRecipe {
    pub id: String,
    pub title: String,
    pub ingredients: String,
    pub instructions: String,
    pub source: String,
    pub tags: Vec<String>,
}

/// The candidate sequence with every repeated value removed, keeping first
/// occurrences in order.
pub open spec fn dedup_views(s: Seq<Seq<char>>) -> Seq<Seq<char>>
    decreases s.len(),
{
    if s.len() == 0 {
        Seq::<Seq<char>>::empty()
    } else {
        let d = dedup_views(s.drop_last());
        if d.contains(s.last()) {
            d
        } else {
            d.push(s.last())
        }
    }
}

/// Removes repeated tag values, keeping first occurrences in order.
fn dedup_tags(tags: &Vec<String>) -> (r: Vec<String>)
    ensures
        tag_views(r@) =~= dedup_views(tag_views(tags@)),
{
    let mut out: Vec<String> = Vec::new();
    let mut i: usize = 0;
    while i < tags.len()
        invariant
            0 <= i <= tags@.len(),
            tag_views(out@) =~= dedup_views(tag_views(tags@).take(i as int)),
        decreases tags@.len() - i,
    {
        let ghost prefix = tag_views(tags@).take(i as int);
        if !string_in(&out, &tags[i]) {
            out.push(tags[i].clone());
        }
        proof {
            let next = tag_views(tags@).take(i + 1);
            assert(next.drop_last() =~= prefix);
            assert(next.last() == tag_views(tags@)[i as int]);
            assert(tag_views(out@) =~= dedup_views(next));
        }
        i = i + 1;
    }
    proof {
        assert(tag_views(tags@).take(tags@.len() as int) =~= tag_views(tags@));
    }
    out
}

impl JSONRecipe {
    /// Packs a recipe row and its tags into one body value, removing
    /// repeated tags.
    pub fn new(recipe: Recipe, tags: Vec<String>) -> (j: Self)
        ensures
            j.id@ == recipe@.id,
            j.title@ == recipe@.title,
            j.ingredients@ == recipe@.ingredients,
            j.instructions@ == recipe@.instructions,
            j.source@ == recipe@.recipe_source,
            tag_views(j.tags@) == dedup_views(tag_views(tags@)),
    {
        let tags = dedup_tags(&tags);
        JSONRecipe {
            id: recipe.id,
            title: recipe.title,
            ingredients: recipe.ingredients,
            instructions: recipe.instructions,
            source: recipe.recipe_source,
            tags,
        }
    }

    /// Clones the body value, fields and tags alike.
    pub fn duplicate(&self) -> (r: Self)
        ensures
            stored_of(r) == stored_of(*self),
    {
        JSONRecipe {
            id: self.id.clone(),
            title: self.title.clone(),
            ingredients: self.ingredients.clone(),
            instructions: self.instructions.clone(),
            source: self.source.clone(),
            tags: clone_tags(&self.tags),
        }
    }

    /// Unpacks the body value into a recipe row and its tags.
    pub fn to_recipe(&self) -> (p: (Recipe, Vec<String>))
        ensures
            p.0@.id == self.id@,
            p.0@.title == self.title@,
            p.0@.ingredients == self.ingredients@,
            p.0@.instructions == self.instructions@,
            p.0@.recipe_source == self.source@,
            tag_views(p.1@) == tag_views(self.tags@),
    {
        let recipe = Recipe {
            id: self.id.clone(),
            title: self.title.clone(),
            ingredients: self.ingredients.clone(),
            instructions: self.instructions.clone(),
            recipe_source: self.source.clone(),
        };
        (recipe, clone_tags(&self.tags))
    }
}

} // verus!
