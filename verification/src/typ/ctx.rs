//! The ordered typing context: a sequence of typed variables, unsolved
//! existentials and solved existentials. It grows to the right and is
//! searched from the right, so that a newer element shadows an older one.
use crate::interner::Id;
use crate::typ::{internal, Error, Existential, Fault, Type};
use vstd::prelude::*;

verus! {

/// An element of the typing context.
#[derive(Debug, PartialEq, Eq)]
pub enum Element {
    /// A variable along with its type.
    TypedVariable(Id, Type),
    /// A type that must exist, but whose identity isn't yet known.
    Existential(Existential),
    /// A former existential, now solved.
    Solved(Existential, Type),
}

impl Element {
    /// A copy of this element.
    pub fn duplicate(&self) -> (e: Element)
        ensures
            e == *self,
    {
        match self {
            Element::TypedVariable(id, t) => Element::TypedVariable(*id, t.duplicate()),
            Element::Existential(a) => Element::Existential(*a),
            Element::Solved(a, t) => Element::Solved(*a, t.duplicate()),
        }
    }

    /// Whether the two elements are the same element.
    pub fn same(&self, other: &Element) -> (r: bool)
        ensures
            r == (*self == *other),
    {
        match (self, other) {
            (Element::TypedVariable(x, s), Element::TypedVariable(y, t)) => x.0 == y.0 && s.same(t),
            (Element::Existential(a), Element::Existential(b)) => a.0 == b.0,
            (Element::Solved(a, s), Element::Solved(b, t)) => a.0 == b.0 && s.same(t),
            _ => false,
        }
    }
}

/// The index of the last occurrence of `element`.
pub open spec fn last_index(elements: Seq<Element>, element: Element) -> Option<int>
    decreases elements.len(),
{
    if elements.len() == 0 {
        None
    } else if elements.last() == element {
        Some(elements.len() - 1)
    } else {
        last_index(elements.drop_last(), element)
    }
}

/// The context before the last occurrence of `element`, and the context
/// from it on.
pub open spec fn split(elements: Seq<Element>, element: Element) -> Option<
    (Seq<Element>, Seq<Element>),
> {
    match last_index(elements, element) {
        Some(i) => Some((elements.take(i), elements.skip(i))),
        None => None,
    }
}

/// The context with the last occurrence of `element` replaced by
/// `replacements`.
pub open spec fn replaced(
    elements: Seq<Element>,
    element: Element,
    replacements: Seq<Element>,
) -> Option<Seq<Element>> {
    match last_index(elements, element) {
        Some(i) => Some(elements.take(i) + replacements + elements.skip(i + 1)),
        None => None,
    }
}

/// The context before the last occurrence of `element`.
pub open spec fn truncated(elements: Seq<Element>, element: Element) -> Option<Seq<Element>> {
    match last_index(elements, element) {
        Some(i) => Some(elements.take(i)),
        None => None,
    }
}

/// The newest solution of `alpha`.
pub open spec fn solution(elements: Seq<Element>, alpha: Existential) -> Option<Type>
    decreases elements.len(),
{
    if elements.len() == 0 {
        None
    } else {
        match elements.last() {
            Element::Solved(a, t) if a == alpha => Some(t),
            _ => solution(elements.drop_last(), alpha),
        }
    }
}

/// Whether `alpha` occurs unsolved.
pub open spec fn unsolved(elements: Seq<Element>, alpha: Existential) -> bool {
    elements.contains(Element::Existential(alpha))
}

/// The type that the newest binding of `x` gives it.
pub open spec fn annotation(elements: Seq<Element>, x: Id) -> Option<Type>
    decreases elements.len(),
{
    if elements.len() == 0 {
        None
    } else {
        match elements.last() {
            Element::TypedVariable(v, t) if v == x => Some(t),
            _ => annotation(elements.drop_last(), x),
        }
    }
}

/// The first existential of `t`, reading from left to right, that the
/// context neither holds unsolved nor solves. A type without one is well
/// formed under the context.
pub open spec fn ill_formed_part(elements: Seq<Element>, t: Type) -> Option<Existential>
    decreases t,
{
    match t {
        Type::Primitive(_) => None,
        Type::Existential(a) => if unsolved(elements, a) || solution(elements, a) is Some {
            None
        } else {
            Some(a)
        },
        Type::Arrow(from, to) => match ill_formed_part(elements, *from) {
            Some(a) => Some(a),
            None => ill_formed_part(elements, *to),
        },
    }
}

/// Whether `t` is well formed under the context.
pub open spec fn well_formed(elements: Seq<Element>, t: Type) -> bool {
    ill_formed_part(elements, t) is None
}

/// The typing context
#[derive(Debug, PartialEq, Eq)]
pub struct Ctx {
    /// The elements of the typing context.
    ///
    /// NOTE: In order for variable shadowing to work correctly the typing
    /// context must always be searched from the back.
    elements: Vec<Element>,
}

impl View for Ctx {
    type V = Seq<Element>;

    closed spec fn view(&self) -> Seq<Element> {
        self.elements@
    }
}

impl Ctx {
    /// The empty context.
    pub fn new() -> (ctx: Ctx)
        ensures
            ctx@ == Seq::<Element>::empty(),
    {
        Ctx { elements: Vec::new() }
    }

    /// The number of elements.
    pub fn len(&self) -> (n: usize)
        ensures
            n == self@.len(),
    {
        self.elements.len()
    }

    /// The context with `element` at its right end.
    pub fn add(self, element: Element) -> (ctx: Ctx)
        ensures
            ctx@ == self@.push(element),
    {
        let mut elements = self.elements;
        elements.push(element);
        Ctx { elements }
    }

    /// A copy of the elements from index `from` up to index `to`.
    fn copy_range(&self, from: usize, to: usize) -> (ctx: Ctx)
        requires
            from <= to <= self@.len(),
        ensures
            ctx@ == self@.subrange(from as int, to as int),
    {
        let mut elements: Vec<Element> = Vec::new();
        let mut i: usize = from;
        while i < to
            invariant
                from <= i <= to <= self.elements@.len(),
                elements@ == self.elements@.subrange(from as int, i as int),
            decreases to - i,
        {
            elements.push(self.elements[i].duplicate());
            assert(self.elements@.subrange(from as int, i as int).push(self.elements@[i as int])
                =~= self.elements@.subrange(from as int, i + 1));
            i = i + 1;
        }
        Ctx { elements }
    }

    /// The context before the last occurrence of `element`, and the context
    /// from it on. Without an occurrence: an internal error.
    pub fn split_at(&self, element: &Element) -> (r: Result<(Ctx, Ctx), Error>)
        ensures
            match split(self@, *element) {
                Some((left, right)) => r matches Ok(p) && p.0@ == left && p.1@ == right,
                None => r matches Err(e) && e@ == Fault::Internal,
            },
    {
        match self.first_appearance_from_back(element) {
            Some(i) => {
                let left = self.copy_range(0, i);
                let right = self.copy_range(i, self.elements.len());
                Ok((left, right))
            },
            None => Err(internal("split_at called with non-existent element")),
        }
    }

    /// The context with the last occurrence of `element` replaced by
    /// `replacements`. Without an occurrence: an internal error.
    pub fn insert_in_place(self, element: Element, replacements: Vec<Element>) -> (r: Result<
        Ctx,
        Error,
    >)
        ensures
            match replaced(self@, element, replacements@) {
                Some(elements) => r matches Ok(ctx) && ctx@ == elements,
                None => r matches Err(e) && e@ == Fault::Internal,
            },
    {
        match self.first_appearance_from_back(&element) {
            Some(i) => {
                let mut elements = self.elements;
                let n = elements.len();
                let mut tail = elements.split_off(i + 1);
                elements.pop();
                let ghost inserted = replacements@;
                let mut replacements = replacements;
                elements.append(&mut replacements);
                elements.append(&mut tail);
                assert(elements@ =~= self@.take(i as int) + inserted + self@.skip(i + 1));
                Ok(Ctx { elements })
            },
            None => Err(internal("insert_in_place called with non-existent element")),
        }
    }

    /// The context before the last occurrence of `element`. Without an
    /// occurrence: an internal error.
    pub fn drop(self, element: &Element) -> (r: Result<Ctx, Error>)
        ensures
            match truncated(self@, *element) {
                Some(elements) => r matches Ok(ctx) && ctx@ == elements,
                None => r matches Err(e) && e@ == Fault::Internal,
            },
    {
        match self.first_appearance_from_back(element) {
            Some(i) => {
                let mut elements = self.elements;
                elements.truncate(i);
                assert(elements@ =~= self@.take(i as int));
                Ok(Ctx { elements })
            },
            None => Err(internal("drop called with non-existent element")),
        }
    }

    /// The newest solution of `alpha`.
    pub fn get_solved(&self, alpha: &Existential) -> (r: Option<&Type>)
        ensures
            match solution(self@, *alpha) {
                Some(t) => r == Some(&t),
                None => r is None,
            },
    {
        let n = self.elements.len();
        let mut i: usize = n;
        assert(self.elements@.take(n as int) =~= self.elements@);
        while i > 0
            invariant
                i <= n == self.elements@.len(),
                solution(self.elements@, *alpha) == solution(self.elements@.take(i as int), *alpha),
            decreases i,
        {
            i = i - 1;
            assert(self.elements@.take(i + 1).drop_last() =~= self.elements@.take(i as int));
            match &self.elements[i] {
                Element::Solved(a, ty) => {
                    if a.0 == alpha.0 {
                        return Some(ty);
                    }
                },
                _ => {},
            }
        }
        None
    }

    /// Whether `alpha` occurs unsolved.
    pub fn has_existential(&self, alpha: &Existential) -> (r: bool)
        ensures
            r == unsolved(self@, *alpha),
    {
        let n = self.elements.len();
        let mut i: usize = 0;
        while i < n
            invariant
                i <= n == self.elements@.len(),
                forall|k: int| 0 <= k < i ==> self.elements@[k] != Element::Existential(*alpha),
            decreases n - i,
        {
            match &self.elements[i] {
                Element::Existential(a) => {
                    if a.0 == alpha.0 {
                        return true;
                    }
                },
                _ => {},
            }
            i = i + 1;
        }
        false
    }

    /// The type that the newest binding of `x` gives it; for a variable
    /// without a binding, the error `UnboundVariable`.
    pub fn get_annotation(&self, x: Id) -> (r: Result<&Type, Error>)
        ensures
            match annotation(self@, x) {
                Some(t) => r == Ok::<&Type, Error>(&t),
                None => r == Err::<&Type, Error>(Error::UnboundVariable(x)),
            },
    {
        let n = self.elements.len();
        let mut i: usize = n;
        assert(self.elements@.take(n as int) =~= self.elements@);
        while i > 0
            invariant
                i <= n == self.elements@.len(),
                annotation(self.elements@, x) == annotation(self.elements@.take(i as int), x),
            decreases i,
        {
            i = i - 1;
            assert(self.elements@.take(i + 1).drop_last() =~= self.elements@.take(i as int));
            match &self.elements[i] {
                Element::TypedVariable(v, t) => {
                    if v.0 == x.0 {
                        return Ok(t);
                    }
                },
                _ => {},
            }
        }
        Err(Error::UnboundVariable(x))
    }

    /// Whether `t` is well formed under this context; if not, the error
    /// `IllFormedType` with the first existential of `t` that the context
    /// does not know.
    pub fn check_type_well_formed(&self, t: &Type) -> (r: Result<(), Error>)
        ensures
            match ill_formed_part(self@, *t) {
                None => r is Ok,
                Some(a) => r == Err::<(), Error>(Error::IllFormedType(Type::Existential(a))),
            },
        decreases t,
    {
        match t {
            Type::Primitive(_) => Ok(()),
            Type::Existential(a) => {
                if self.has_existential(a) || self.get_solved(a).is_some() {
                    Ok(())
                } else {
                    Err(Error::IllFormedType(t.duplicate()))
                }
            },
            Type::Arrow(from, to) => {
                match self.check_type_well_formed(from) {
                    Ok(()) => self.check_type_well_formed(to),
                    Err(e) => Err(e),
                }
            },
        }
    }

    /// The index of the last occurrence of `element`.
    fn first_appearance_from_back(&self, element: &Element) -> (r: Option<usize>)
        ensures
            match last_index(self@, *element) {
                Some(i) => r == Some(i as usize) && 0 <= i < self@.len(),
                None => r is None,
            },
    {
        let n = self.elements.len();
        let mut i: usize = n;
        assert(self.elements@.take(n as int) =~= self.elements@);
        while i > 0
            invariant
                i <= n == self.elements@.len(),
                last_index(self.elements@, *element) == last_index(
                    self.elements@.take(i as int),
                    *element,
                ),
            decreases i,
        {
            i = i - 1;
            assert(self.elements@.take(i + 1).drop_last() =~= self.elements@.take(i as int));
            if self.elements[i].same(element) {
                return Some(i);
            }
        }
        None
    }
}

} // verus!
