//! The keys of the cache as text. A cache of strings holds each entry under
//! the text of its key; no two keys share a text, so nothing is lost by
//! that.

use vstd::prelude::*;
use crate::cache::CacheKeyView;
use crate::names::{is_name_char, spec_valid_name};
use crate::text::{digit_char, spec_decimal, spec_signed_decimal};

verus! {

/// A text that holds no colon. Every name a project may bear is one.
pub open spec fn colon_free(text: Seq<char>) -> bool {
    forall|i: int| 0 <= i < text.len() ==> text[i] != ':'
}

/// A key that names its project by a text without a colon.
pub open spec fn plain(key: CacheKeyView) -> bool {
    match key {
        CacheKeyView::Project(name) => colon_free(name),
        CacheKeyView::OwnerPage(_, _) => true,
        CacheKeyView::Path(name, _) => colon_free(name),
        CacheKeyView::Requests(_) => true,
        CacheKeyView::Favorites(_) => true,
    }
}

/// The name of a project holds no colon.
pub proof fn lemma_names_are_colon_free(name: Seq<char>)
    requires
        spec_valid_name(name),
    ensures
        colon_free(name),
{
    assert forall|i: int| 0 <= i < name.len() implies name[i] != ':' by {
        assert(is_name_char(name[i]));
    }
}

proof fn lemma_cancel(front: Seq<char>, a: Seq<char>, b: Seq<char>)
    requires
        front + a == front + b,
    ensures
        a == b,
{
    assert(a =~= (front + a).skip(front.len() as int));
    assert(b =~= (front + b).skip(front.len() as int));
}

/// Two texts that split one text at a colon, the first holding none before
/// it, split it at the same place.
proof fn lemma_first_colon(a: Seq<char>, x: Seq<char>, b: Seq<char>, y: Seq<char>)
    requires
        colon_free(a),
        colon_free(b),
        x.len() > 0 && x[0] == ':',
        y.len() > 0 && y[0] == ':',
        a + x == b + y,
    ensures
        a == b,
        x == y,
{
    let whole = a + x;
    assert((a + x).len() == a.len() + x.len());
    assert((b + y).len() == b.len() + y.len());
    assert(whole[a.len() as int] == x[0]);
    assert((b + y)[b.len() as int] == y[0]);
    if a.len() < b.len() {
        assert((b + y)[a.len() as int] == b[a.len() as int]);
    }
    if b.len() < a.len() {
        assert(whole[b.len() as int] == a[b.len() as int]);
    }
    assert(a =~= whole.take(a.len() as int));
    assert(b =~= (b + y).take(b.len() as int));
    lemma_cancel(a, x, y);
}

/// Two texts that split one text at its last colon split it at the same
/// place.
proof fn lemma_last_colon(a: Seq<char>, x: Seq<char>, b: Seq<char>, y: Seq<char>)
    requires
        x.len() > 0 && x[0] == ':' && colon_free(x.skip(1)),
        y.len() > 0 && y[0] == ':' && colon_free(y.skip(1)),
        a + x == b + y,
    ensures
        a == b,
        x == y,
{
    let whole = a + x;
    assert(whole[a.len() as int] == x[0]);
    assert((b + y)[b.len() as int] == y[0]);
    assert((a + x).len() == a.len() + x.len());
    assert((b + y).len() == b.len() + y.len());
    if a.len() < b.len() {
        let k = b.len() - a.len();
        assert(0 < k < x.len());
        assert(whole[b.len() as int] == x[k]);
        assert(x.skip(1)[k - 1] == x[k]);
    }
    if b.len() < a.len() {
        let k = a.len() - b.len();
        assert(0 < k < y.len());
        assert((b + y)[a.len() as int] == y[k]);
        assert(y.skip(1)[k - 1] == y[k]);
    }
    assert(a =~= whole.take(a.len() as int));
    assert(b =~= (b + y).take(b.len() as int));
    lemma_cancel(a, x, y);
}

/// A number in decimal digits is made of digits, and of one at least.
proof fn lemma_decimal_digits(n: nat)
    ensures
        spec_decimal(n).len() >= 1,
        n >= 10 ==> spec_decimal(n).len() >= 2,
        forall|i: int|
            0 <= i < spec_decimal(n).len() ==> '0' <= #[trigger] spec_decimal(n)[i] <= '9',
    decreases n,
{
    if n >= 10 {
        lemma_decimal_digits(n / 10);
    }
}

/// Two numbers that are written alike are one number.
proof fn lemma_decimal_is_one_to_one(a: nat, b: nat)
    requires
        spec_decimal(a) == spec_decimal(b),
    ensures
        a == b,
    decreases a,
{
    lemma_decimal_digits(a);
    lemma_decimal_digits(b);
    if a < 10 && b < 10 {
        assert(spec_decimal(a)[0] == digit_char(a));
        assert(spec_decimal(b)[0] == digit_char(b));
    } else if a >= 10 && b >= 10 {
        let x = spec_decimal(a / 10);
        let y = spec_decimal(b / 10);
        assert(x =~= spec_decimal(a).drop_last());
        assert(y =~= spec_decimal(b).drop_last());
        assert(spec_decimal(a).last() == digit_char(a % 10));
        assert(spec_decimal(b).last() == digit_char(b % 10));
        lemma_decimal_is_one_to_one(a / 10, b / 10);
    }
}

/// A number with its sign holds no colon, and two numbers that are written
/// alike are one number.
proof fn lemma_signed_decimal(a: int, b: int)
    ensures
        colon_free(spec_signed_decimal(a)),
        spec_signed_decimal(a) == spec_signed_decimal(b) ==> a == b,
{
    reveal_strlit("-");
    let size_a = if a < 0 { (-a) as nat } else { a as nat };
    let size_b = if b < 0 { (-b) as nat } else { b as nat };
    lemma_decimal_digits(size_a);
    lemma_decimal_digits(size_b);
    assert forall|i: int| 0 <= i < spec_signed_decimal(a).len() implies spec_signed_decimal(
        a,
    )[i] != ':' by {
        if a < 0 && i > 0 {
            assert(spec_signed_decimal(a)[i] == spec_decimal(size_a)[i - 1]);
        }
    }
    if spec_signed_decimal(a) == spec_signed_decimal(b) {
        if a < 0 && b < 0 {
            lemma_cancel("-"@, spec_decimal(size_a), spec_decimal(size_b));
            lemma_decimal_is_one_to_one(size_a, size_b);
        } else if a >= 0 && b >= 0 {
            lemma_decimal_is_one_to_one(size_a, size_b);
        } else if a < 0 {
            assert(spec_signed_decimal(a)[0] == '-');
            assert(spec_signed_decimal(b)[0] == spec_decimal(size_b)[0]);
        } else {
            assert(spec_signed_decimal(b)[0] == '-');
            assert(spec_signed_decimal(a)[0] == spec_decimal(size_a)[0]);
        }
    }
}

/// What follows the owner in the text of a page key.
pub open spec fn page_tail(offset: i32) -> Seq<char> {
    ":offset"@ + spec_signed_decimal(offset as int)
}

proof fn lemma_page_tail(offset: i32)
    ensures
        page_tail(offset).len() > 0,
        page_tail(offset)[0] == ':',
        colon_free(page_tail(offset).skip(1)),
{
    reveal_strlit(":offset");
    lemma_signed_decimal(offset as int, offset as int);
    let tail = page_tail(offset);
    assert forall|i: int| 0 <= i < tail.skip(1).len() implies tail.skip(1)[i] != ':' by {
        if i >= 6 {
            assert(tail.skip(1)[i] == spec_signed_decimal(offset as int)[i - 6]);
        }
    }
}

/// No two keys share a text: the text of a key tells which key it is.
pub proof fn law_key_texts_differ(a: CacheKeyView, b: CacheKeyView)
    requires
        plain(a),
        plain(b),
        a.text() == b.text(),
    ensures
        a == b,
{
    reveal_strlit("project:");
    reveal_strlit("projects-by-owner:");
    reveal_strlit(":path:");
    reveal_strlit("billing:requests:");
    reveal_strlit("social:project-favorites:");
    let ta = a.text();
    let tb = b.text();
    lemma_key_text_head(a);
    lemma_key_text_head(b);
    match (a, b) {
        (CacheKeyView::Project(m), CacheKeyView::Project(n)) => {
            lemma_cancel("project:"@, m, n);
        },
        (CacheKeyView::Requests(m), CacheKeyView::Requests(n)) => {
            lemma_cancel("billing:requests:"@, m, n);
        },
        (CacheKeyView::Favorites(m), CacheKeyView::Favorites(n)) => {
            lemma_cancel("social:project-favorites:"@, m, n);
        },
        (CacheKeyView::Path(m, p), CacheKeyView::Path(n, q)) => {
            assert("project:"@ + m + ":path:"@ + p =~= "project:"@ + (m + (":path:"@ + p)));
            assert("project:"@ + n + ":path:"@ + q =~= "project:"@ + (n + (":path:"@ + q)));
            lemma_cancel("project:"@, m + (":path:"@ + p), n + (":path:"@ + q));
            lemma_first_colon(m, ":path:"@ + p, n, ":path:"@ + q);
            lemma_cancel(":path:"@, p, q);
        },
        (CacheKeyView::Project(m), CacheKeyView::Path(n, q)) => {
            assert("project:"@ + n + ":path:"@ + q =~= "project:"@ + (n + (":path:"@ + q)));
            lemma_cancel("project:"@, m, n + (":path:"@ + q));
            assert(m[n.len() as int] == (":path:"@ + q)[0]);
        },
        (CacheKeyView::Path(n, q), CacheKeyView::Project(m)) => {
            assert("project:"@ + n + ":path:"@ + q =~= "project:"@ + (n + (":path:"@ + q)));
            lemma_cancel("project:"@, m, n + (":path:"@ + q));
            assert(m[n.len() as int] == (":path:"@ + q)[0]);
        },
        (CacheKeyView::OwnerPage(o, i), CacheKeyView::OwnerPage(u, j)) => {
            assert("projects-by-owner:"@ + o + ":offset"@ + spec_signed_decimal(i as int)
                =~= "projects-by-owner:"@ + (o + page_tail(i)));
            assert("projects-by-owner:"@ + u + ":offset"@ + spec_signed_decimal(j as int)
                =~= "projects-by-owner:"@ + (u + page_tail(j)));
            lemma_cancel("projects-by-owner:"@, o + page_tail(i), u + page_tail(j));
            lemma_page_tail(i);
            lemma_page_tail(j);
            lemma_last_colon(o, page_tail(i), u, page_tail(j));
            lemma_cancel(":offset"@, spec_signed_decimal(i as int), spec_signed_decimal(j as int));
            lemma_signed_decimal(i as int, j as int);
        },
        _ => {
            assert(ta[0] == tb[0]);
            assert(ta[7] == tb[7]);
        },
    }
}

/// The text of a key begins as the family of the key does.
proof fn lemma_key_text_head(key: CacheKeyView)
    ensures
        key.text().len() >= 8,
        key.text()[0] == (match key {
            CacheKeyView::Requests(_) => 'b',
            CacheKeyView::Favorites(_) => 's',
            _ => 'p',
        }),
        key.text()[7] == (match key {
            CacheKeyView::Project(_) => ':',
            CacheKeyView::Path(_, _) => ':',
            CacheKeyView::OwnerPage(_, _) => 's',
            CacheKeyView::Requests(_) => ':',
            CacheKeyView::Favorites(_) => 'p',
        }),
{
    reveal_strlit("project:");
    reveal_strlit("projects-by-owner:");
    reveal_strlit("billing:requests:");
    reveal_strlit("social:project-favorites:");
    match key {
        CacheKeyView::Project(n) => {
            assert(("project:"@ + n)[0] == "project:"@[0]);
            assert(("project:"@ + n)[7] == "project:"@[7]);
        },
        CacheKeyView::Path(n, p) => {
            assert(("project:"@ + n + ":path:"@ + p)[0] == "project:"@[0]);
            assert(("project:"@ + n + ":path:"@ + p)[7] == "project:"@[7]);
        },
        CacheKeyView::OwnerPage(o, i) => {
            let t = "projects-by-owner:"@ + o + ":offset"@ + spec_signed_decimal(i as int);
            assert(t[0] == "projects-by-owner:"@[0]);
            assert(t[7] == "projects-by-owner:"@[7]);
        },
        CacheKeyView::Requests(n) => {
            assert(("billing:requests:"@ + n)[0] == "billing:requests:"@[0]);
            assert(("billing:requests:"@ + n)[7] == "billing:requests:"@[7]);
        },
        CacheKeyView::Favorites(n) => {
            assert(("social:project-favorites:"@ + n)[0] == "social:project-favorites:"@[0]);
            assert(("social:project-favorites:"@ + n)[7] == "social:project-favorites:"@[7]);
        },
    }
}

} // verus!
