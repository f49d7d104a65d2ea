//! Paths: the address of a supervisor, a children group or a child within
//! the supervision tree.
//!
//! A path is the chain of elements from the root of the tree down to the
//! addressed one. Supervisors may nest; a children group hangs below a
//! supervisor; a child hangs below a children group; nothing hangs below a
//! child. The empty path addresses the system itself.

use crate::id::{nil_id, QuipId};
use crate::text::{joined, slash_joined, views_of};
use std::sync::Arc;
use vstd::prelude::*;
use vstd::std_specs::iter::IteratorSpec;
use vstd::string::*;

verus! {

/// One element of a path.
#[derive(Clone, Copy, Debug, PartialEq, Eq, Structural)]
pub enum QuipPathElement {
    /// A supervisor.
    Supervisor(QuipId),
    /// A children group.
    Children(QuipId),
    /// A child.
    Child(QuipId),
}

impl QuipPathElement {
    /// The identifier the element carries.
    pub open spec fn ident(&self) -> QuipId {
        match *self {
            QuipPathElement::Supervisor(id) => id,
            QuipPathElement::Children(id) => id,
            QuipPathElement::Child(id) => id,
        }
    }

    /// The element as `{:?}` would print it: its kind in lower case, a
    /// hash sign, and the text of its identifier.
    pub open spec fn debug_text(&self) -> Seq<char> {
        match *self {
            QuipPathElement::Supervisor(id) => "supervisor#"@ + id.text(),
            QuipPathElement::Children(id) => "children#"@ + id.text(),
            QuipPathElement::Child(id) => "child#"@ + id.text(),
        }
    }

    /// The identifier the element carries.
    pub fn id(&self) -> (id: &QuipId)
        ensures
            *id == self.ident(),
    {
        match self {
            QuipPathElement::Supervisor(id) => id,
            QuipPathElement::Children(id) => id,
            QuipPathElement::Child(id) => id,
        }
    }

    /// Whether the element is a supervisor.
    pub fn is_supervisor(&self) -> (b: bool)
        ensures
            b == (*self is Supervisor),
    {
        matches!(self, QuipPathElement::Supervisor(_))
    }

    /// Whether the element is a children group.
    pub fn is_children(&self) -> (b: bool)
        ensures
            b == (*self is Children),
    {
        matches!(self, QuipPathElement::Children(_))
    }

    /// Whether the element is a child.
    pub fn is_child(&self) -> (b: bool)
        ensures
            b == (*self is Child),
    {
        matches!(self, QuipPathElement::Child(_))
    }

    /// The element's kind in lower case, a hash sign, and the text of its
    /// identifier.
    pub fn debug_string(&self) -> (s: String)
        ensures
            s@ == self.debug_text(),
    {
        let (mut s, id) = match self {
            QuipPathElement::Supervisor(id) => (String::from_str("supervisor#"), id),
            QuipPathElement::Children(id) => (String::from_str("children#"), id),
            QuipPathElement::Child(id) => (String::from_str("child#"), id),
        };
        let text = id.to_string();
        s.append(text.as_str());
        s
    }
}

/// The last element of a chain, if it has one.
pub open spec fn last_of(chain: Seq<QuipPathElement>) -> Option<QuipPathElement> {
    if chain.len() == 0 {
        None
    } else {
        Some(chain.last())
    }
}

/// Whether `el` may stand directly below an element `above` (`None`: at the
/// root).
pub open spec fn may_follow(above: Option<QuipPathElement>, el: QuipPathElement) -> bool {
    match el {
        QuipPathElement::Supervisor(_) => above is None || above->0 is Supervisor,
        QuipPathElement::Children(_) => above is Some && above->0 is Supervisor,
        QuipPathElement::Child(_) => above is Some && above->0 is Children,
    }
}

/// Whether the element at place `i` of the chain may stand below the one
/// before it.
pub open spec fn fits_at(chain: Seq<QuipPathElement>, i: int) -> bool {
    may_follow(
        if i == 0 {
            None
        } else {
            Some(chain[i - 1])
        },
        chain[i],
    )
}

/// Whether every element of the chain may stand where it stands: a
/// supervisor at the root or below a supervisor, a children group below a
/// supervisor, a child below a children group.
pub open spec fn well_formed(chain: Seq<QuipPathElement>) -> bool {
    forall|i: int| 0 <= i < chain.len() ==> #[trigger] fits_at(chain, i)
}

/// The identifiers of a chain, in order.
pub open spec fn ids_of(chain: Seq<QuipPathElement>) -> Seq<QuipId> {
    Seq::new(chain.len(), |i: int| chain[i].ident())
}

/// A chain with one more element is well-formed exactly when the chain
/// was and the element may follow its last one.
pub proof fn lemma_push_well_formed(chain: Seq<QuipPathElement>, el: QuipPathElement)
    ensures
        well_formed(chain.push(el)) <==> well_formed(chain) && may_follow(last_of(chain), el),
{
    let longer = chain.push(el);
    if well_formed(chain) && may_follow(last_of(chain), el) {
        assert forall|i: int| 0 <= i < longer.len() implies #[trigger] fits_at(longer, i) by {
            if i < chain.len() {
                assert(fits_at(chain, i));
            }
        }
    }
    if well_formed(longer) {
        assert forall|i: int| 0 <= i < chain.len() implies #[trigger] fits_at(chain, i) by {
            assert(fits_at(longer, i));
        }
        assert(fits_at(longer, chain.len() as int));
    }
}

/// In a well-formed chain a child is the last element and stands at the
/// third place or later, and a children group is the last element or the
/// last but one.
pub proof fn lemma_well_formed_ends(chain: Seq<QuipPathElement>, i: int)
    requires
        well_formed(chain),
        0 <= i < chain.len(),
    ensures
        chain[i] is Child ==> i == chain.len() - 1 && i >= 2,
        chain[i] is Children ==> i >= 1 && i >= chain.len() - 2,
{
    assert(fits_at(chain, i));
    if i >= 1 {
        assert(fits_at(chain, i - 1));
    }
    if i + 1 < chain.len() {
        assert(fits_at(chain, i + 1));
    }
    if i + 2 < chain.len() {
        assert(fits_at(chain, i + 2));
    }
}

/// The address of the system, a supervisor, a children group or a child.
#[derive(Debug, PartialEq, Eq)]
pub struct QuipPath {
    parent_chain: Vec<QuipId>,
    this: Option<QuipPathElement>,
}

impl View for QuipPath {
    type V = Seq<QuipPathElement>;

    /// The chain of elements from the root down to the addressed one.
    closed spec fn view(&self) -> Seq<QuipPathElement> {
        match self.this {
            None => Seq::empty(),
            Some(el) => Seq::new(
                self.parent_chain@.len(),
                |i: int|
                    if el is Child && i == self.parent_chain@.len() - 1 {
                        QuipPathElement::Children(self.parent_chain@[i])
                    } else {
                        QuipPathElement::Supervisor(self.parent_chain@[i])
                    },
            ).push(el),
        }
    }
}

impl Clone for QuipPath {
    fn clone(&self) -> (copy: Self)
        ensures
            copy@ == self@,
    {
        proof {
            use_type_invariant(self);
        }
        let mut chain: Vec<QuipId> = Vec::new();
        let mut i: usize = 0;
        while i < self.parent_chain.len()
            invariant
                i <= self.parent_chain.len(),
                chain@ == self.parent_chain@.subrange(0, i as int),
            decreases self.parent_chain.len() - i,
        {
            chain.push(self.parent_chain[i]);
            i += 1;
            assert(chain@ == self.parent_chain@.subrange(0, i as int));
        }
        assert(chain@ == self.parent_chain@);
        QuipPath { parent_chain: chain, this: self.this }
    }
}

impl QuipPath {
    #[verifier::type_invariant]
    spec fn inv(&self) -> bool {
        match self.this {
            None => self.parent_chain@.len() == 0,
            Some(QuipPathElement::Supervisor(_)) => true,
            Some(QuipPathElement::Children(_)) => self.parent_chain@.len() >= 1,
            Some(QuipPathElement::Child(_)) => self.parent_chain@.len() >= 2,
        }
    }

    proof fn lemma_inv_well_formed(&self)
        requires
            self.inv(),
        ensures
            well_formed(self@),
            last_of(self@) == self.this,
            ids_of(self@) == match self.this {
                None => self.parent_chain@,
                Some(el) => self.parent_chain@.push(el.ident()),
            },
    {
        assert forall|i: int| 0 <= i < self@.len() implies #[trigger] fits_at(self@, i) by {}
        match self.this {
            None => {
                assert(ids_of(self@) == self.parent_chain@);
            },
            Some(el) => {
                assert(ids_of(self@) == self.parent_chain@.push(el.ident()));
            },
        }
    }

    /// The identifiers along the path, in order.
    pub open spec fn ids(&self) -> Seq<QuipId> {
        ids_of(self@)
    }

    /// The path as `{}` would print it: a slash, then the texts of the
    /// identifiers along the path with a slash between each two.
    pub open spec fn text(&self) -> Seq<char> {
        seq!['/'] + joined(Seq::new(self@.len(), |i: int| self@[i].ident().text()))
    }

    /// The path as `{:?}` would print it: a slash, then the elements along
    /// the path, each with its kind, with a slash between each two.
    pub open spec fn debug_text(&self) -> Seq<char> {
        seq!['/'] + joined(Seq::new(self@.len(), |i: int| self@[i].debug_text()))
    }

    /// The empty path: the address of the system, or of a sender outside it.
    pub fn root() -> (path: QuipPath)
        ensures
            path@ == Seq::<QuipPathElement>::empty(),
    {
        QuipPath { parent_chain: Vec::new(), this: None }
    }

    /// Iterates over the identifiers along the path, from the root down.
    pub fn iter(&self) -> (it: std::vec::IntoIter<&QuipId>)
        ensures
            IteratorSpec::remaining(&it).len() == self@.len(),
            forall|i: int|
                0 <= i < self@.len() ==> *(#[trigger] IteratorSpec::remaining(&it)[i])
                    == self@[i].ident(),
    {
        broadcast use vstd::std_specs::vec::axiom_spec_into_iter;

        proof {
            use_type_invariant(self);
            self.lemma_inv_well_formed();
        }
        let mut all: Vec<&QuipId> = Vec::new();
        let mut i: usize = 0;
        while i < self.parent_chain.len()
            invariant
                i <= self.parent_chain.len(),
                all@.len() == i,
                forall|j: int| 0 <= j < i ==> *(#[trigger] all@[j]) == self.parent_chain@[j],
            decreases self.parent_chain.len() - i,
        {
            all.push(&self.parent_chain[i]);
            i += 1;
        }
        match &self.this {
            Some(el) => {
                all.push(el.id());
            },
            None => {},
        }
        assert forall|j: int| 0 <= j < self@.len() implies *(#[trigger] all@[j])
            == self@[j].ident() by {
            assert(ids_of(self@)[j] == self@[j].ident());
        }
        all.into_iter()
    }

    /// The identifier of the addressed element; the reserved identifier
    /// for the empty path.
    pub fn id(&self) -> (id: &QuipId)
        ensures
            *id == if self@.len() == 0 {
                nil_id()
            } else {
                self@.last().ident()
            },
    {
        proof {
            use_type_invariant(self);
            self.lemma_inv_well_formed();
        }
        match &self.this {
            Some(el) => el.id(),
            None => &QuipId(0),
        }
    }

    /// The addressed element; `None` for the empty path.
    pub fn elem(&self) -> (el: &Option<QuipPathElement>)
        ensures
            *el == last_of(self@),
            well_formed(self@),
    {
        proof {
            use_type_invariant(self);
            self.lemma_inv_well_formed();
        }
        &self.this
    }

    /// Whether two paths are the same chain of elements.
    pub fn same_as(&self, other: &QuipPath) -> (b: bool)
        ensures
            b == (self@ == other@),
    {
        proof {
            use_type_invariant(self);
            use_type_invariant(other);
            self.lemma_inv_well_formed();
            other.lemma_inv_well_formed();
        }
        let same_end = match (&self.this, &other.this) {
            (None, None) => true,
            (Some(QuipPathElement::Supervisor(a)), Some(QuipPathElement::Supervisor(b))) => a.0
                == b.0,
            (Some(QuipPathElement::Children(a)), Some(QuipPathElement::Children(b))) => a.0 == b.0,
            (Some(QuipPathElement::Child(a)), Some(QuipPathElement::Child(b))) => a.0 == b.0,
            _ => false,
        };
        if !same_end {
            assert(last_of(self@) != last_of(other@));
            return false;
        }
        if self.parent_chain.len() != other.parent_chain.len() {
            assert(self@.len() != other@.len());
            return false;
        }
        let mut i: usize = 0;
        while i < self.parent_chain.len()
            invariant
                i <= self.parent_chain.len(),
                self.parent_chain.len() == other.parent_chain.len(),
                self.inv(),
                other.inv(),
                self.this == other.this,
                forall|j: int| 0 <= j < i ==> self.parent_chain@[j] == other.parent_chain@[j],
            decreases self.parent_chain.len() - i,
        {
            if self.parent_chain[i].0 != other.parent_chain[i].0 {
                proof {
                    if self.this is Some {
                        assert(self@[i as int].ident() == self.parent_chain@[i as int]);
                        assert(other@[i as int].ident() == other.parent_chain@[i as int]);
                    }
                }
                return false;
            }
            i += 1;
        }
        assert(self.parent_chain@ =~= other.parent_chain@);
        assert(self@ =~= other@);
        true
    }

    /// Whether this is the path of a child of the dead-letters group: the
    /// root supervisor, then the dead-letters group, both of which carry
    /// the reserved identifier, then a child.
    pub fn is_dead_letters(&self) -> (b: bool)
        ensures
            b == (self@.len() == 3 && self@[0] == QuipPathElement::Supervisor(nil_id()) && self@[1]
                == QuipPathElement::Children(nil_id()) && self@[2] is Child),
    {
        proof {
            use_type_invariant(self);
        }
        match &self.this {
            Some(QuipPathElement::Child(_)) => {
                self.parent_chain.len() == 2 && self.parent_chain[0].is_nil()
                    && self.parent_chain[1].is_nil()
            },
            _ => {
                proof {
                    if self.this is Some {
                        assert(self@.last() == self.this->0);
                    }
                }
                false
            },
        }
    }

    /// The path of `el` directly below the element that `self` addresses.
    ///
    /// Fails, handing back both, exactly when `el` may not stand there.
    pub fn append(self, el: QuipPathElement) -> (res: Result<QuipPath, AppendError>)
        ensures
            well_formed(self@),
            res is Ok <==> may_follow(last_of(self@), el),
            res is Ok <==> well_formed(self@.push(el)),
            res is Ok ==> res->Ok_0@ == self@.push(el),
            res is Err ==> res->Err_0.path()@ == self@ && res->Err_0.element() == el,
    {
        proof {
            use_type_invariant(&self);
            self.lemma_inv_well_formed();
            lemma_push_well_formed(self@, el);
        }
        let ghost before = self@;
        let ghost chain = self.parent_chain@;
        let QuipPath { parent_chain, this } = self;
        let mut parent_chain = parent_chain;
        match el {
            QuipPathElement::Supervisor(_) => match this {
                None => {
                    let path = QuipPath { parent_chain, this: Some(el) };
                    assert(path@ == before.push(el));
                    Ok(path)
                },
                Some(QuipPathElement::Supervisor(id)) => {
                    parent_chain.push(id);
                    let path = QuipPath { parent_chain, this: Some(el) };
                    assert(path@ == before.push(el));
                    Ok(path)
                },
                _ => Err(AppendError { path: QuipPath { parent_chain, this }, element: el }),
            },
            QuipPathElement::Children(_) => match this {
                Some(QuipPathElement::Supervisor(id)) => {
                    parent_chain.push(id);
                    let path = QuipPath { parent_chain, this: Some(el) };
                    assert(path@ == before.push(el));
                    Ok(path)
                },
                _ => Err(AppendError { path: QuipPath { parent_chain, this }, element: el }),
            },
            QuipPathElement::Child(_) => match this {
                Some(QuipPathElement::Children(id)) => {
                    parent_chain.push(id);
                    let path = QuipPath { parent_chain, this: Some(el) };
                    assert(path@ == before.push(el));
                    Ok(path)
                },
                _ => Err(AppendError { path: QuipPath { parent_chain, this }, element: el }),
            },
        }
    }

    /// A slash, then the texts of the identifiers along the path with a
    /// slash between each two.
    pub fn to_string(&self) -> (s: String)
        ensures
            s@ == self.text(),
    {
        proof {
            use_type_invariant(self);
            self.lemma_inv_well_formed();
        }
        let ghost want = Seq::new(self@.len(), |i: int| self@[i].ident().text());
        let mut parts: Vec<String> = Vec::new();
        let mut i: usize = 0;
        while i < self.parent_chain.len()
            invariant
                i <= self.parent_chain.len(),
                parts@.len() == i,
                forall|j: int| 0 <= j < i ==> (#[trigger] parts@[j])@ == self.parent_chain@[j].text(),
            decreases self.parent_chain.len() - i,
        {
            parts.push(self.parent_chain[i].to_string());
            i += 1;
        }
        match &self.this {
            Some(el) => {
                parts.push(el.id().to_string());
            },
            None => {},
        }
        assert(views_of(parts@) == want) by {
            assert forall|j: int| 0 <= j < want.len() implies views_of(parts@)[j] == want[j] by {
                assert(ids_of(self@)[j] == self@[j].ident());
            }
        }
        slash_joined(&parts)
    }

    /// A slash, then the elements along the path, each with its kind, with
    /// a slash between each two.
    pub fn debug_string(&self) -> (s: String)
        ensures
            s@ == self.debug_text(),
    {
        proof {
            use_type_invariant(self);
        }
        let ghost want = Seq::new(self@.len(), |i: int| self@[i].debug_text());
        let mut parts: Vec<String> = Vec::new();
        let n = self.parent_chain.len();
        let child = match &self.this {
            Some(QuipPathElement::Child(_)) => true,
            _ => false,
        };
        let mut i: usize = 0;
        while i < n
            invariant
                i <= n,
                n == self.parent_chain@.len(),
                self.this is None ==> n == 0,
                child == (self.this is Some && self.this->0 is Child),
                parts@.len() == i,
                forall|j: int| 0 <= j < i ==> (#[trigger] parts@[j])@ == self@[j].debug_text(),
            decreases n - i,
        {
            let el = if child && i == n - 1 {
                QuipPathElement::Children(self.parent_chain[i])
            } else {
                QuipPathElement::Supervisor(self.parent_chain[i])
            };
            assert(el == self@[i as int]);
            parts.push(el.debug_string());
            i += 1;
        }
        match &self.this {
            Some(el) => {
                assert(*el == self@[n as int]);
                parts.push(el.debug_string());
            },
            None => {},
        }
        assert(views_of(parts@) == want);
        slash_joined(&parts)
    }
}

/// Another handle to a shared path.
///
/// Wraps `Arc::clone`, which makes a second pointer to the same value and
/// leaves the value untouched.
#[verifier::external_body]
pub(crate) fn share(path: &Arc<QuipPath>) -> (same: Arc<QuipPath>)
    ensures
        same == *path,
{
    Arc::clone(path)
}

/// Why an element could not be appended to a path: the two of them.
#[derive(Debug)]
pub struct AppendError {
    path: QuipPath,
    element: QuipPathElement,
}

/// What an [`AppendError`] says of an element that may not stand below
/// `above`.
pub open spec fn append_error_text(above: Option<QuipPathElement>, el: QuipPathElement) -> Seq<
    char,
> {
    match el {
        QuipPathElement::Supervisor(_) => match above {
            Some(QuipPathElement::Children(_)) => "Supervisor is not appendable to children"@,
            _ => "Supervisor is not appendable to a child"@,
        },
        QuipPathElement::Children(_) => match above {
            None => "Children is not appendable to root"@,
            Some(QuipPathElement::Children(_)) => "Children is not appendable to children"@,
            _ => "Children is not appendable to a child"@,
        },
        QuipPathElement::Child(_) => match above {
            None => "Child is not appendable to root"@,
            Some(QuipPathElement::Supervisor(_)) => "Child is not appendable to a supervisor"@,
            _ => "Child is not appendable to a child"@,
        },
    }
}

impl AppendError {
    #[verifier::type_invariant]
    spec fn inv(&self) -> bool {
        !may_follow(self.path.this, self.element)
    }

    /// The path that refused the element.
    pub closed spec fn path(&self) -> QuipPath {
        self.path
    }

    /// The element that was refused.
    pub closed spec fn element(&self) -> QuipPathElement {
        self.element
    }

    /// The error as `{}` would print it.
    pub open spec fn text(&self) -> Seq<char> {
        append_error_text(last_of(self.path()@), self.element())
    }

    /// The error as `{:?}` would print it.
    pub open spec fn debug_text(&self) -> Seq<char> {
        "Can't append "@ + self.element().debug_text() + " to "@ + self.path().debug_text()
    }

    /// The path that refused the element.
    pub fn rejected_by(&self) -> (path: &QuipPath)
        ensures
            *path == self.path(),
            !may_follow(last_of(path@), self.element()),
    {
        proof {
            use_type_invariant(self);
            use_type_invariant(&self.path);
            self.path.lemma_inv_well_formed();
        }
        &self.path
    }

    /// The path that refused the element, taken out.
    pub fn into_path(self) -> (path: QuipPath)
        ensures
            path == self.path(),
    {
        self.path
    }

    /// The element that was refused.
    pub fn rejected(&self) -> (el: &QuipPathElement)
        ensures
            *el == self.element(),
    {
        &self.element
    }

    /// Names the element that was refused and what it was to be appended
    /// to.
    pub fn to_string(&self) -> (s: String)
        ensures
            s@ == self.text(),
            !may_follow(last_of(self.path()@), self.element()),
    {
        proof {
            use_type_invariant(self);
            use_type_invariant(&self.path);
            self.path.lemma_inv_well_formed();
        }
        let text = match self.element {
            QuipPathElement::Supervisor(_) => match self.path.this {
                Some(QuipPathElement::Children(_)) => "Supervisor is not appendable to children",
                _ => "Supervisor is not appendable to a child",
            },
            QuipPathElement::Children(_) => match self.path.this {
                None => "Children is not appendable to root",
                Some(QuipPathElement::Children(_)) => "Children is not appendable to children",
                _ => "Children is not appendable to a child",
            },
            QuipPathElement::Child(_) => match self.path.this {
                None => "Child is not appendable to root",
                Some(QuipPathElement::Supervisor(_)) => "Child is not appendable to a supervisor",
                _ => "Child is not appendable to a child",
            },
        };
        String::from_str(text)
    }

    /// Names the element and the path with their kinds.
    pub fn debug_string(&self) -> (s: String)
        ensures
            s@ == self.debug_text(),
    {
        let mut s = String::from_str("Can't append ");
        let el = self.element.debug_string();
        s.append(el.as_str());
        s.append(" to ");
        let path = self.path.debug_string();
        s.append(path.as_str());
        s
    }
}

} // verus!
