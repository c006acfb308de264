//! Editing the quote store: adding, updating and deleting quotes and
//! categories.
use vstd::prelude::*;

use crate::models::{AppSettings, Category, Quote, QuotesData};
use crate::state::AppData;

verus! {

/// Copies an optional string.
pub fn clone_opt_string(o: &Option<String>) -> (r: Option<String>)
    ensures
        r == *o,
{
    match o {
        Some(s) => Some(s.clone()),
        None => None,
    }
}

impl Quote {
    /// A field-by-field copy of the quote.
    pub fn duplicate(&self) -> (r: Quote)
        ensures
            r == *self,
    {
        Quote {
            id: self.id,
            content: self.content.clone(),
            author: clone_opt_string(&self.author),
            category: self.category.clone(),
            enabled: self.enabled,
            show_count: self.show_count,
            created_at: self.created_at.clone(),
        }
    }
}

/// The largest id among the quotes, 0 when there are none.
pub open spec fn max_id(qs: Seq<Quote>) -> nat
    decreases qs.len(),
{
    if qs.len() == 0 {
        0
    } else {
        let m = max_id(qs.drop_last());
        if qs.last().id > m {
            qs.last().id as nat
        } else {
            m
        }
    }
}

/// Every id is below the largest `u64`, so that one more can be handed out.
pub open spec fn ids_below_max(qs: Seq<Quote>) -> bool {
    forall|k: int| 0 <= k < qs.len() ==> #[trigger] qs[k].id < u64::MAX
}

/// The id that the next new quote receives.
pub open spec fn next_id(qs: Seq<Quote>) -> nat {
    max_id(qs) + 1
}

pub proof fn lemma_max_id(qs: Seq<Quote>)
    ensures
        forall|k: int| 0 <= k < qs.len() ==> #[trigger] qs[k].id <= max_id(qs),
        qs.len() == 0 ==> max_id(qs) == 0,
        qs.len() > 0 ==> exists|k: int| 0 <= k < qs.len() && #[trigger] qs[k].id == max_id(qs),
    decreases qs.len(),
{
    if qs.len() > 0 {
        let p = qs.drop_last();
        lemma_max_id(p);
        assert forall|k: int| 0 <= k < qs.len() implies #[trigger] qs[k].id <= max_id(qs) by {
            if k < qs.len() - 1 {
                assert(qs[k] == p[k]);
            }
        }
        if qs.last().id > max_id(p) {
            assert(qs[qs.len() - 1].id == max_id(qs));
        } else if p.len() > 0 {
            let k = choose|k: int| 0 <= k < p.len() && #[trigger] p[k].id == max_id(p);
            assert(qs[k] == p[k]);
        } else {
            assert(qs[0].id == 0);
        }
    }
}

/// Computes the id for a new quote: one more than the largest id in use.
pub fn next_quote_id(quotes: &Vec<Quote>) -> (id: u64)
    requires
        ids_below_max(quotes@),
    ensures
        id == next_id(quotes@),
{
    let mut m: u64 = 0;
    let mut i: usize = 0;
    while i < quotes.len()
        invariant
            i <= quotes@.len(),
            m == max_id(quotes@.subrange(0, i as int)),
        decreases quotes@.len() - i,
    {
        let ghost p = quotes@.subrange(0, i as int + 1);
        assert(p.drop_last() =~= quotes@.subrange(0, i as int));
        if quotes[i].id > m {
            m = quotes[i].id;
        }
        i += 1;
    }
    assert(quotes@.subrange(0, i as int) =~= quotes@);
    proof {
        lemma_max_id(quotes@);
        if quotes@.len() > 0 {
            let k = choose|k: int| 0 <= k < quotes@.len() && #[trigger] quotes@[k].id == max_id(quotes@);
            assert(quotes@[k].id < u64::MAX);
        }
    }
    m + 1
}

/// Whether a category of that name exists.
pub open spec fn has_category(cats: Seq<Category>, name: Seq<char>) -> bool {
    exists|k: int| 0 <= k < cats.len() && #[trigger] cats[k].name@ == name
}

/// Tests whether a category of that name exists.
pub fn category_exists(cats: &Vec<Category>, name: &String) -> (b: bool)
    ensures
        b == has_category(cats@, name@),
{
    let mut i: usize = 0;
    while i < cats.len()
        invariant
            i <= cats@.len(),
            forall|k: int| 0 <= k < i ==> #[trigger] cats@[k].name@ != name@,
        decreases cats@.len() - i,
    {
        if cats[i].name.eq(name) {
            return true;
        }
        i += 1;
    }
    false
}

/// The categories after `name` has been added unless it already existed.
pub open spec fn with_category(cats: Seq<Category>, name: String) -> Seq<Category> {
    if has_category(cats, name@) {
        cats
    } else {
        cats.push(Category { name })
    }
}

/// Adds a category, unless one of that name exists already.
pub fn add_category(data: &mut QuotesData, name: String)
    ensures
        final(data).quotes == old(data).quotes,
        final(data).categories@ == with_category(old(data).categories@, name),
{
    if !category_exists(&data.categories, &name) {
        data.categories.push(Category { name });
    }
}

/// The quote that `add_quote` creates.
pub open spec fn new_quote(
    id: nat,
    content: String,
    author: Option<String>,
    category: String,
    created_at: String,
) -> Quote {
    Quote {
        id: id as u64,
        content,
        author,
        category,
        enabled: true,
        show_count: 0,
        created_at,
    }
}

/// Adds a quote with a fresh id, creating its category if needed; returns it.
pub fn add_quote(
    data: &mut QuotesData,
    content: String,
    author: Option<String>,
    category: String,
    created_at: String,
) -> (q: Quote)
    requires
        ids_below_max(old(data).quotes@),
    ensures
        final(data).categories@ == with_category(old(data).categories@, category),
        q == new_quote(next_id(old(data).quotes@), content, author, category, created_at),
        q.id == next_id(old(data).quotes@),
        final(data).quotes@ == old(data).quotes@.push(q),
{
    add_category(data, category.clone());
    let id = next_quote_id(&data.quotes);
    let q = Quote {
        id,
        content,
        author,
        category,
        enabled: true,
        show_count: 0,
        created_at,
    };
    data.quotes.push(q.duplicate());
    q
}

/// The categories `new` are `old` with the unsorted category added when it
/// was missing.
pub open spec fn with_unsorted(new: Seq<Category>, old: Seq<Category>) -> bool {
    if has_category(old, crate::models::uncategorized()) {
        new == old
    } else {
        &&& new.len() == old.len() + 1
        &&& new.drop_last() == old
        &&& new.last().name@ == crate::models::uncategorized()
    }
}

/// Adds a quote to the unsorted category, creating that category if needed.
pub fn collect_quote(data: &mut QuotesData, content: String, created_at: String)
    requires
        ids_below_max(old(data).quotes@),
    ensures
        with_unsorted(final(data).categories@, old(data).categories@),
        final(data).quotes@.len() == old(data).quotes@.len() + 1,
        final(data).quotes@.drop_last() == old(data).quotes@,
        ({
            let q = final(data).quotes@.last();
            &&& q.id == next_id(old(data).quotes@)
            &&& q.content == content
            &&& q.author is None
            &&& q.category@ == crate::models::uncategorized()
            &&& q.enabled
            &&& q.show_count == 0
            &&& q.created_at == created_at
        }),
{
    let name = crate::models::uncategorized_name();
    let ghost g = name;
    let q = add_quote(data, content, None, name, created_at);
    assert(data.quotes@.drop_last() =~= old(data).quotes@);
    assert(data.quotes@.last() == q);
    proof {
        if !has_category(old(data).categories@, g@) {
            assert(data.categories@.drop_last() =~= old(data).categories@);
        }
    }
}

/// The position of the first quote with that id.
pub open spec fn position_from(qs: Seq<Quote>, id: u64, i: int) -> Option<int>
    decreases qs.len() - i,
{
    if i < 0 || i >= qs.len() {
        None
    } else if qs[i].id == id {
        Some(i)
    } else {
        position_from(qs, id, i + 1)
    }
}

pub proof fn lemma_position_from(qs: Seq<Quote>, id: u64, i: int)
    ensures
        position_from(qs, id, i) matches Some(k) ==> 0 <= i <= k < qs.len() && qs[k].id == id,
    decreases qs.len() - i,
{
    if 0 <= i < qs.len() && qs[i].id != id {
        lemma_position_from(qs, id, i + 1);
    }
}

/// The position of the first quote with that id, if any.
pub open spec fn position_of_id(qs: Seq<Quote>, id: u64) -> Option<int> {
    position_from(qs, id, 0)
}

/// Finds the first quote with that id.
pub fn find_quote(quotes: &Vec<Quote>, id: u64) -> (r: Option<usize>)
    ensures
        match r {
            Some(k) => position_of_id(quotes@, id) == Some(k as int),
            None => position_of_id(quotes@, id) is None,
        },
        r matches Some(k) ==> k < quotes@.len() && quotes@[k as int].id == id,
{
    let mut i: usize = 0;
    while i < quotes.len()
        invariant
            i <= quotes@.len(),
            position_of_id(quotes@, id) == position_from(quotes@, id, i as int),
        decreases quotes@.len() - i,
    {
        if quotes[i].id == id {
            return Some(i);
        }
        i += 1;
    }
    None
}

/// Replaces the first quote that has the same id as `quote`; no change when
/// there is none.
pub fn update_quote(data: &mut QuotesData, quote: Quote)
    ensures
        final(data).categories == old(data).categories,
        match position_of_id(old(data).quotes@, quote.id) {
            Some(k) => final(data).quotes@ == old(data).quotes@.update(k, quote),
            None => final(data).quotes@ == old(data).quotes@,
        },
{
    if let Some(k) = find_quote(&data.quotes, quote.id) {
        data.quotes.set(k, quote);
    }
}

/// Sets the display count of the first quote with that id back to 0.
pub fn reset_quote_count(data: &mut QuotesData, id: u64)
    ensures
        final(data).categories == old(data).categories,
        match position_of_id(old(data).quotes@, id) {
            Some(k) => final(data).quotes@ == old(data).quotes@.update(
                k,
                Quote { show_count: 0, ..old(data).quotes@[k] },
            ),
            None => final(data).quotes@ == old(data).quotes@,
        },
{
    if let Some(k) = find_quote(&data.quotes, id) {
        let mut q = data.quotes[k].duplicate();
        q.show_count = 0;
        data.quotes.set(k, q);
    }
}

/// Keeps the quote unless it has the given id.
pub open spec fn id_differs(id: u64) -> spec_fn(Quote) -> bool {
    |q: Quote| q.id != id
}

/// Removes every quote with that id, keeping the others in order.
pub fn delete_quote(data: &mut QuotesData, id: u64)
    ensures
        final(data).categories == old(data).categories,
        final(data).quotes@ == old(data).quotes@.filter(id_differs(id)),
{
    let mut kept: Vec<Quote> = Vec::new();
    let mut i: usize = 0;
    while i < data.quotes.len()
        invariant
            i <= data.quotes@.len(),
            data.quotes@ == old(data).quotes@,
            data.categories == old(data).categories,
            kept@ == data.quotes@.subrange(0, i as int).filter(id_differs(id)),
        decreases data.quotes@.len() - i,
    {
        proof {
            reveal_with_fuel(Seq::<_>::filter, 1);
            assert(data.quotes@.subrange(0, i + 1).drop_last() =~= data.quotes@.subrange(
                0,
                i as int,
            ));
        }
        if data.quotes[i].id != id {
            kept.push(data.quotes[i].duplicate());
        }
        i += 1;
    }
    assert(data.quotes@.subrange(0, i as int) =~= data.quotes@);
    data.quotes = kept;
}

/// The position of the first category with that name.
pub open spec fn category_position_from(cats: Seq<Category>, name: Seq<char>, i: int) -> Option<int>
    decreases cats.len() - i,
{
    if i < 0 || i >= cats.len() {
        None
    } else if cats[i].name@ == name {
        Some(i)
    } else {
        category_position_from(cats, name, i + 1)
    }
}

/// Finds the first category with that name.
pub fn find_category(cats: &Vec<Category>, name: &String) -> (r: Option<usize>)
    ensures
        match r {
            Some(k) => category_position_from(cats@, name@, 0) == Some(k as int),
            None => category_position_from(cats@, name@, 0) is None,
        },
        r matches Some(k) ==> k < cats@.len(),
{
    let mut i: usize = 0;
    while i < cats.len()
        invariant
            i <= cats@.len(),
            category_position_from(cats@, name@, 0) == category_position_from(cats@, name@, i as int),
        decreases cats@.len() - i,
    {
        if cats[i].name.eq(name) {
            return Some(i);
        }
        i += 1;
    }
    None
}

/// A quote moved to category `to` when it was in category `from`.
pub open spec fn recategorized(q: Quote, from: Seq<char>, to: String) -> Quote {
    if q.category@ == from {
        Quote { category: to, ..q }
    } else {
        q
    }
}

/// A category name after `from` has been renamed to `to`.
pub open spec fn renamed(c: String, from: Seq<char>, to: String) -> String {
    if c@ == from {
        to
    } else {
        c
    }
}

/// Renames a category: the first category of that name, every quote in it
/// and every active-category entry that names it take the new name.
pub fn rename_category(data: &mut AppData, old_name: String, new_name: String)
    ensures
        final(data).stats == old(data).stats,
        final(data).settings == (AppSettings {
            active_categories: final(data).settings.active_categories,
            ..old(data).settings
        }),
        match category_position_from(old(data).quotes.categories@, old_name@, 0) {
            Some(k) => final(data).quotes.categories@ == old(data).quotes.categories@.update(
                k,
                Category { name: new_name },
            ),
            None => final(data).quotes.categories@ == old(data).quotes.categories@,
        },
        final(data).quotes.quotes@.len() == old(data).quotes.quotes@.len(),
        forall|k: int|
            0 <= k < old(data).quotes.quotes@.len() ==> #[trigger] final(data).quotes.quotes@[k]
                == recategorized(old(data).quotes.quotes@[k], old_name@, new_name),
        final(data).settings.active_categories@.len() == old(
            data,
        ).settings.active_categories@.len(),
        forall|k: int|
            0 <= k < old(data).settings.active_categories@.len()
                ==> #[trigger] final(data).settings.active_categories@[k] == renamed(
                old(data).settings.active_categories@[k],
                old_name@,
                new_name,
            ),
{
    if let Some(k) = find_category(&data.quotes.categories, &old_name) {
        data.quotes.categories.set(k, Category { name: new_name.clone() });
    }
    let mut i: usize = 0;
    while i < data.quotes.quotes.len()
        invariant
            i <= data.quotes.quotes@.len(),
            data.quotes.quotes@.len() == old(data).quotes.quotes@.len(),
            data.stats == old(data).stats,
            data.settings == old(data).settings,
            match category_position_from(old(data).quotes.categories@, old_name@, 0) {
                Some(k) => data.quotes.categories@ == old(data).quotes.categories@.update(
                    k,
                    Category { name: new_name },
                ),
                None => data.quotes.categories@ == old(data).quotes.categories@,
            },
            forall|k: int|
                0 <= k < i ==> #[trigger] data.quotes.quotes@[k] == recategorized(
                    old(data).quotes.quotes@[k],
                    old_name@,
                    new_name,
                ),
            forall|k: int|
                i <= k < data.quotes.quotes@.len() ==> #[trigger] data.quotes.quotes@[k] == old(
                    data,
                ).quotes.quotes@[k],
        decreases data.quotes.quotes@.len() - i,
    {
        if data.quotes.quotes[i].category.eq(&old_name) {
            let mut q = data.quotes.quotes[i].duplicate();
            q.category = new_name.clone();
            data.quotes.quotes.set(i, q);
        }
        i += 1;
    }
    let mut renamed_active: Vec<String> = Vec::new();
    let mut j: usize = 0;
    while j < data.settings.active_categories.len()
        invariant
            j <= data.settings.active_categories@.len(),
            data.settings == old(data).settings,
            renamed_active@.len() == j,
            forall|k: int|
                0 <= k < j ==> #[trigger] renamed_active@[k] == renamed(
                    old(data).settings.active_categories@[k],
                    old_name@,
                    new_name,
                ),
        decreases data.settings.active_categories@.len() - j,
    {
        if data.settings.active_categories[j].eq(&old_name) {
            renamed_active.push(new_name.clone());
        } else {
            renamed_active.push(data.settings.active_categories[j].clone());
        }
        j += 1;
    }
    data.settings.active_categories = renamed_active;
}

/// Keeps a category unless it has the given name.
pub open spec fn category_name_differs(name: Seq<char>) -> spec_fn(Category) -> bool {
    |c: Category| c.name@ != name
}

/// Keeps a name unless it equals the given one.
pub open spec fn name_differs(name: Seq<char>) -> spec_fn(String) -> bool {
    |c: String| c@ != name
}

/// A quote of the deleted category `name`, moved to the unsorted category.
pub open spec fn moved_to_unsorted(new: Quote, old: Quote, name: Seq<char>) -> bool {
    if old.category@ == name {
        &&& new == (Quote { category: new.category, ..old })
        &&& new.category@ == crate::models::uncategorized()
    } else {
        new == old
    }
}

/// Deletes every category of that name; its quotes move to the unsorted
/// category and it leaves the active categories.
pub fn delete_category(data: &mut AppData, name: String)
    ensures
        final(data).stats == old(data).stats,
        final(data).settings == (AppSettings {
            active_categories: final(data).settings.active_categories,
            ..old(data).settings
        }),
        final(data).quotes.categories@ == old(data).quotes.categories@.filter(
            category_name_differs(name@),
        ),
        final(data).quotes.quotes@.len() == old(data).quotes.quotes@.len(),
        forall|k: int|
            0 <= k < old(data).quotes.quotes@.len() ==> moved_to_unsorted(
                #[trigger] final(data).quotes.quotes@[k],
                old(data).quotes.quotes@[k],
                name@,
            ),
        final(data).settings.active_categories@ == old(data).settings.active_categories@.filter(
            name_differs(name@),
        ),
{
    let mut kept: Vec<Category> = Vec::new();
    let mut i: usize = 0;
    while i < data.quotes.categories.len()
        invariant
            i <= data.quotes.categories@.len(),
            data.quotes == old(data).quotes,
            kept@ == data.quotes.categories@.subrange(0, i as int).filter(
                category_name_differs(name@),
            ),
        decreases data.quotes.categories@.len() - i,
    {
        proof {
            reveal_with_fuel(Seq::<_>::filter, 1);
            assert(data.quotes.categories@.subrange(0, i + 1).drop_last()
                =~= data.quotes.categories@.subrange(0, i as int));
        }
        if !data.quotes.categories[i].name.eq(&name) {
            kept.push(Category { name: data.quotes.categories[i].name.clone() });
        }
        i += 1;
    }
    assert(data.quotes.categories@.subrange(0, i as int) =~= data.quotes.categories@);
    data.quotes.categories = kept;
    let mut j: usize = 0;
    while j < data.quotes.quotes.len()
        invariant
            j <= data.quotes.quotes@.len(),
            data.quotes.quotes@.len() == old(data).quotes.quotes@.len(),
            data.quotes.categories@ == old(data).quotes.categories@.filter(
                category_name_differs(name@),
            ),
            data.stats == old(data).stats,
            data.settings == old(data).settings,
            forall|k: int|
                0 <= k < j ==> moved_to_unsorted(
                    #[trigger] data.quotes.quotes@[k],
                    old(data).quotes.quotes@[k],
                    name@,
                ),
            forall|k: int|
                j <= k < data.quotes.quotes@.len() ==> #[trigger] data.quotes.quotes@[k] == old(
                    data,
                ).quotes.quotes@[k],
        decreases data.quotes.quotes@.len() - j,
    {
        if data.quotes.quotes[j].category.eq(&name) {
            let mut q = data.quotes.quotes[j].duplicate();
            q.category = crate::models::uncategorized_name();
            data.quotes.quotes.set(j, q);
        }
        j += 1;
    }
    let mut active: Vec<String> = Vec::new();
    let mut m: usize = 0;
    while m < data.settings.active_categories.len()
        invariant
            m <= data.settings.active_categories@.len(),
            data.settings == old(data).settings,
            active@ == data.settings.active_categories@.subrange(0, m as int).filter(
                name_differs(name@),
            ),
        decreases data.settings.active_categories@.len() - m,
    {
        proof {
            reveal_with_fuel(Seq::<_>::filter, 1);
            assert(data.settings.active_categories@.subrange(0, m + 1).drop_last()
                =~= data.settings.active_categories@.subrange(0, m as int));
        }
        if !data.settings.active_categories[m].eq(&name) {
            active.push(data.settings.active_categories[m].clone());
        }
        m += 1;
    }
    assert(data.settings.active_categories@.subrange(0, m as int)
        =~= data.settings.active_categories@);
    data.settings.active_categories = active;
}

/// Replaces the whole quote store with the one the user edited.
pub fn save_all_quotes(data: &mut AppData, quotes: QuotesData)
    ensures
        final(data).quotes == quotes,
        final(data).settings == old(data).settings,
        final(data).stats == old(data).stats,
{
    data.quotes = quotes;
}

/// Replaces the settings with the ones the user edited.
pub fn save_settings(data: &mut AppData, settings: AppSettings)
    ensures
        final(data).settings == settings,
        final(data).quotes == old(data).quotes,
        final(data).stats == old(data).stats,
{
    data.settings = settings;
}

} // verus!
