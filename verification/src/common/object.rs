//! Runtime values and what can be done with one.

use super::error::{Error, ErrorType, ErrorView};
use super::number;
use super::position::Position;
use super::position::PositionView;
use super::text::{fragments_view, unescape, unescaped, Fragment, FragmentView};
use vstd::prelude::*;

verus! {

/// What a value carries besides its content: whether it is on its way out of a
/// function body.
#[derive(Clone, Copy, Debug, PartialEq, Eq, Structural)]
pub struct Meta {
    pub is_return: bool,
}

impl Default for Meta {
    fn default() -> (meta: Self)
        ensures
            meta == (Meta { is_return: false }),
    {
        Meta { is_return: false }
    }
}

/// A value of the language. A number is held as the bit pattern of a double.
#[derive(Debug)]
pub enum Object {
    Number(u64, Meta),
    String(String, Meta),
    Boolean(bool, Meta),
    Array(Vec<Object>, Meta),
    Nil(Meta),
}

/// The mathematical value of an [`Object`].
pub enum ObjectView {
    Number(u64, Meta),
    String(Seq<char>, Meta),
    Boolean(bool, Meta),
    Array(Seq<ObjectView>, Meta),
    Nil(Meta),
}

/// The values of a sequence of objects.
pub open spec fn objects_view(objects: Seq<Object>) -> Seq<ObjectView>
    decreases objects,
{
    Seq::new(
        objects.len(),
        |i: int|
            if 0 <= i < objects.len() {
                objects[i].view()
            } else {
                ObjectView::Nil(Meta { is_return: false })
            },
    )
}

impl ObjectView {
    pub open spec fn meta(self) -> Meta {
        match self {
            ObjectView::Number(_, meta) => meta,
            ObjectView::String(_, meta) => meta,
            ObjectView::Boolean(_, meta) => meta,
            ObjectView::Array(_, meta) => meta,
            ObjectView::Nil(meta) => meta,
        }
    }

    /// The same content under another mark.
    pub open spec fn with_meta(self, meta: Meta) -> ObjectView {
        match self {
            ObjectView::Number(bits, _) => ObjectView::Number(bits, meta),
            ObjectView::String(text, _) => ObjectView::String(text, meta),
            ObjectView::Boolean(truth, _) => ObjectView::Boolean(truth, meta),
            ObjectView::Array(items, _) => ObjectView::Array(items, meta),
            ObjectView::Nil(_) => ObjectView::Nil(meta),
        }
    }

    /// An array with `object` as its new last item; any other value as it is.
    pub open spec fn pushed(self, object: ObjectView) -> ObjectView {
        match self {
            ObjectView::Array(items, meta) => ObjectView::Array(items.push(object), meta),
            other => other,
        }
    }

    /// An array without its last item, an empty one as it is; any other value as it is.
    pub open spec fn popped(self) -> ObjectView {
        match self {
            ObjectView::Array(items, meta) => ObjectView::Array(
                if items.len() > 0 {
                    items.drop_last()
                } else {
                    items
                },
                meta,
            ),
            other => other,
        }
    }

    /// A boolean counts as itself and nil as false; every other value is true.
    pub open spec fn truthy(self) -> bool {
        match self {
            ObjectView::Boolean(truth, _) => truth,
            ObjectView::Nil(_) => false,
            _ => true,
        }
    }

    /// Equality of two values: the same variant and equal content, numbers
    /// compared as doubles and arrays item by item. Whether a value is marked
    /// as returning plays no part, neither for the value nor for an item.
    pub open spec fn same_as(self, other: ObjectView) -> bool
        decreases self,
    {
        match (self, other) {
            (ObjectView::Number(a, _), ObjectView::Number(b, _)) => number::equal(a, b),
            (ObjectView::String(a, _), ObjectView::String(b, _)) => a == b,
            (ObjectView::Boolean(a, _), ObjectView::Boolean(b, _)) => a == b,
            (ObjectView::Array(a, _), ObjectView::Array(b, _)) => {
                &&& a.len() == b.len()
                &&& forall|i: int| 0 <= i < a.len() ==> (#[trigger] a[i]).same_as(b[i])
            },
            (ObjectView::Nil(_), ObjectView::Nil(_)) => true,
            _ => false,
        }
    }

    /// What is printed for a value: a number as the host writes it, a string with
    /// its `\n` escapes turned into line feeds, `true`, `false` or `nil`, and an
    /// array as `[`, each item followed by a comma, and `]`.
    pub open spec fn display(self) -> Seq<FragmentView>
        decreases self, 1int,
    {
        match self {
            ObjectView::Number(bits, _) => seq![FragmentView::Number(bits)],
            ObjectView::String(text, _) => seq![FragmentView::Text(unescaped(text))],
            ObjectView::Boolean(truth, _) => seq![
                FragmentView::Text(
                    if truth {
                        "true"@
                    } else {
                        "false"@
                    },
                ),
            ],
            ObjectView::Array(items, _) => seq![FragmentView::Text("["@)] + display_items(
                items,
                items.len() as int,
            ) + seq![FragmentView::Text("]"@)],
            ObjectView::Nil(_) => seq![FragmentView::Text("nil"@)],
        }
    }
}

/// What is printed for the first `count` items: each one followed by a comma.
pub open spec fn display_items(items: Seq<ObjectView>, count: int) -> Seq<FragmentView>
    decreases items, 0int, count,
{
    if count <= 0 || count > items.len() {
        Seq::empty()
    } else {
        display_items(items, count - 1) + items[count - 1].display() + seq![
            FragmentView::Text(","@),
        ]
    }
}

/// The error of a value that is no array and was asked to grow or shrink.
pub open spec fn no_push_method(receiver: ObjectView, position: PositionView) -> ErrorView {
    ErrorView {
        e_type: ErrorType::RuntimeError,
        message: seq![FragmentView::Text("`"@)] + receiver.display() + seq![
            FragmentView::Text("` does not have `push` method associated with it"@),
        ],
        position,
    }
}

impl Object {
    pub open spec fn view(&self) -> ObjectView
        decreases self,
    {
        match self {
            Object::Number(bits, meta) => ObjectView::Number(*bits, *meta),
            Object::String(text, meta) => ObjectView::String(text@, *meta),
            Object::Boolean(truth, meta) => ObjectView::Boolean(*truth, *meta),
            Object::Array(items, meta) => ObjectView::Array(objects_view(items@), *meta),
            Object::Nil(meta) => ObjectView::Nil(*meta),
        }
    }

    pub fn meta(&self) -> (meta: &Meta)
        ensures
            *meta == self@.meta(),
    {
        match self {
            Self::Number(_, meta) => meta,
            Self::String(_, meta) => meta,
            Self::Boolean(_, meta) => meta,
            Self::Array(_, meta) => meta,
            Self::Nil(meta) => meta,
        }
    }

    /// Marks the value as on its way out of a function body.
    pub fn set_return(&mut self)
        ensures
            final(self)@ == old(self)@.with_meta(Meta { is_return: true }),
    {
        match self {
            Self::Number(_, meta) => meta.is_return = true,
            Self::String(_, meta) => meta.is_return = true,
            Self::Boolean(_, meta) => meta.is_return = true,
            Self::Array(_, meta) => meta.is_return = true,
            Self::Nil(meta) => meta.is_return = true,
        }
    }

    /// Takes the mark off again.
    pub fn clear_return(&mut self)
        ensures
            final(self)@ == old(self)@.with_meta(Meta { is_return: false }),
    {
        match self {
            Self::Number(_, meta) => meta.is_return = false,
            Self::String(_, meta) => meta.is_return = false,
            Self::Boolean(_, meta) => meta.is_return = false,
            Self::Array(_, meta) => meta.is_return = false,
            Self::Nil(meta) => meta.is_return = false,
        }
    }

    pub fn is_return(&self) -> (marked: bool)
        ensures
            marked == self@.meta().is_return,
    {
        self.meta().is_return
    }

    pub fn is_truthy(&self) -> (truth: bool)
        ensures
            truth == self@.truthy(),
    {
        match self {
            Self::Boolean(boolean, ..) => *boolean,
            Self::Nil(..) => false,
            _ => true,
        }
    }
}

/// A copy of a list of objects.
pub fn clone_objects(objects: &Vec<Object>) -> (copy: Vec<Object>)
    ensures
        objects_view(copy@) == objects_view(objects@),
    decreases objects,
{
    let mut copy: Vec<Object> = Vec::new();
    let mut i: usize = 0;
    while i < objects.len()
        invariant
            i <= objects.len(),
            copy.len() == i,
            forall|j: int| 0 <= j < i ==> copy[j]@ == objects[j]@,
        decreases objects.len() - i,
    {
        copy.push(objects[i].clone());
        i += 1;
    }
    assert(objects_view(copy@) =~= objects_view(objects@));
    copy
}

impl Clone for Object {
    fn clone(&self) -> (copy: Self)
        ensures
            copy@ == self@,
        decreases self,
    {
        match self {
            Object::Number(bits, meta) => Object::Number(*bits, *meta),
            Object::String(text, meta) => Object::String(text.clone(), *meta),
            Object::Boolean(truth, meta) => Object::Boolean(*truth, *meta),
            Object::Array(items, meta) => {
                let copy = clone_objects(items);
                Object::Array(copy, *meta)
            },
            Object::Nil(meta) => Object::Nil(*meta),
        }
    }
}

/// Whether two lists hold equal values at every index.
pub fn objects_equal(left: &Vec<Object>, right: &Vec<Object>) -> (equal: bool)
    ensures
        equal == ObjectView::Array(objects_view(left@), Meta { is_return: false }).same_as(
            ObjectView::Array(objects_view(right@), Meta { is_return: false }),
        ),
    decreases left,
{
    if left.len() != right.len() {
        return false;
    }
    let mut i: usize = 0;
    while i < left.len()
        invariant
            i <= left.len(),
            left.len() == right.len(),
            forall|j: int| 0 <= j < i ==> (#[trigger] objects_view(left@)[j]).same_as(
                objects_view(right@)[j],
            ),
        decreases left.len() - i,
    {
        if !left[i].eq(&right[i]) {
            assert(!objects_view(left@)[i as int].same_as(objects_view(right@)[i as int]));
            return false;
        }
        i += 1;
    }
    true
}

impl PartialEq for Object {
    fn eq(&self, other: &Self) -> (equal: bool)
        decreases self,
    {
        match (self, other) {
            (Object::Number(a, _), Object::Number(b, _)) => number::number_equal(*a, *b),
            (Object::String(a, _), Object::String(b, _)) => *a == *b,
            (Object::Boolean(a, _), Object::Boolean(b, _)) => *a == *b,
            (Object::Array(a, _), Object::Array(b, _)) => objects_equal(a, b),
            (Object::Nil(_), Object::Nil(_)) => true,
            _ => false,
        }
    }
}

impl vstd::std_specs::cmp::PartialEqSpecImpl for Object {
    open spec fn obeys_eq_spec() -> bool {
        true
    }

    open spec fn eq_spec(&self, other: &Self) -> bool {
        self@.same_as(other@)
    }
}

/// Appends to `out` what is printed for each of `items`.
fn display_items_into(items: &Vec<Object>, out: &mut Vec<Fragment>)
    ensures
        fragments_view(final(out)@) == fragments_view(old(out)@) + display_items(
            objects_view(items@),
            items.len() as int,
        ),
    decreases items,
{
    let ghost before = fragments_view(out@);
    let mut i: usize = 0;
    assert(fragments_view(out@) =~= before + display_items(objects_view(items@), 0));
    while i < items.len()
        invariant
            i <= items.len(),
            fragments_view(out@) == before + display_items(objects_view(items@), i as int),
        decreases items.len() - i,
    {
        let ghost so_far = fragments_view(out@);
        items[i].display_into(out);
        let ghost with_item = fragments_view(out@);
        out.push(Fragment::Text(",".to_owned()));
        i += 1;
        assert(fragments_view(out@) =~= with_item + seq![FragmentView::Text(","@)]);
        assert(fragments_view(out@) =~= before + display_items(objects_view(items@), i as int));
    }
}

impl Object {
    /// Appends to `out` what is printed for the value.
    pub fn display_into(&self, out: &mut Vec<Fragment>)
        ensures
            fragments_view(final(out)@) == fragments_view(old(out)@) + self@.display(),
        decreases self,
    {
        let ghost before = fragments_view(out@);
        match self {
            Object::Number(bits, _) => {
                out.push(Fragment::Number(*bits));
            },
            Object::String(text, _) => {
                out.push(Fragment::Text(unescape(text.as_str())));
            },
            Object::Boolean(truth, _) => {
                if *truth {
                    out.push(Fragment::Text("true".to_owned()));
                } else {
                    out.push(Fragment::Text("false".to_owned()));
                }
            },
            Object::Array(items, meta) => {
                out.push(Fragment::Text("[".to_owned()));
                let ghost opened = fragments_view(out@);
                assert(opened =~= before + seq![FragmentView::Text("["@)]);
                display_items_into(items, out);
                let ghost filled = fragments_view(out@);
                out.push(Fragment::Text("]".to_owned()));
                assert(fragments_view(out@) =~= filled + seq![FragmentView::Text("]"@)]);
            },
            Object::Nil(_) => {
                out.push(Fragment::Text("nil".to_owned()));
            },
        }
        assert(fragments_view(out@) =~= before + self@.display());
    }

    /// What is printed for the value.
    pub fn display(&self) -> (shown: Vec<Fragment>)
        ensures
            fragments_view(shown@) == self@.display(),
    {
        let mut shown: Vec<Fragment> = Vec::new();
        assert(fragments_view(shown@) =~= Seq::<FragmentView>::empty());
        self.display_into(&mut shown);
        assert(fragments_view(shown@) =~= self@.display());
        shown
    }

    /// The error of a value that is no array and was asked to grow or shrink.
    fn missing_method(&self, position: Position) -> (error: Error)
        ensures
            error@ == no_push_method(self@, position@),
    {
        let mut message: Vec<Fragment> = Vec::new();
        message.push(Fragment::Text("`".to_owned()));
        assert(fragments_view(message@) =~= seq![FragmentView::Text("`"@)]);
        self.display_into(&mut message);
        let ghost shown = fragments_view(message@);
        message.push(
            Fragment::Text("` does not have `push` method associated with it".to_owned()),
        );
        assert(fragments_view(message@) =~= shown + seq![
            FragmentView::Text("` does not have `push` method associated with it"@),
        ]);
        Error::with_fragments(ErrorType::RuntimeError, message, position)
    }

    /// Appends `object` to an array and hands back the grown array, unmarked.
    /// Anything but an array is left as it is and reported.
    pub fn push(&mut self, object: Object, position: Position) -> (result: Result<Object, Error>)
        ensures
            final(self)@ == old(self)@.pushed(object@),
            old(self)@ is Array ==> result is Ok && result->Ok_0@ == final(self)@.with_meta(
                Meta { is_return: false },
            ),
            !(old(self)@ is Array) ==> result is Err && result->Err_0@ == no_push_method(
                old(self)@,
                position@,
            ),
    {
        match self {
            Object::Array(array, meta) => {
                let ghost before = objects_view(array@);
                array.push(object);
                assert(objects_view(array@) =~= before.push(object@));
                let copy = clone_objects(array);
                Ok(Object::Array(copy, Meta::default()))
            },
            _ => Err(self.missing_method(position)),
        }
    }

    /// Takes the last item off an array, if it has one, and hands back the array
    /// that is left, unmarked. Anything but an array is left as it is and reported.
    pub fn pop(&mut self, position: Position) -> (result: Result<Object, Error>)
        ensures
            final(self)@ == old(self)@.popped(),
            old(self)@ is Array ==> result is Ok && result->Ok_0@ == final(self)@.with_meta(
                Meta { is_return: false },
            ),
            !(old(self)@ is Array) ==> result is Err && result->Err_0@ == no_push_method(
                old(self)@,
                position@,
            ),
    {
        match self {
            Object::Array(array, meta) => {
                let ghost before = objects_view(array@);
                array.pop();
                assert(objects_view(array@) =~= if before.len() > 0 {
                    before.drop_last()
                } else {
                    before
                });
                let copy = clone_objects(array);
                Ok(Object::Array(copy, Meta::default()))
            },
            _ => Err(self.missing_method(position)),
        }
    }
}

/// Taking the last item off an array that has just been given one leaves the
/// array as it was before: the same items in the same order, under the same mark.
pub proof fn lemma_pop_undoes_push(array: ObjectView, object: ObjectView)
    requires
        array is Array,
    ensures
        array.pushed(object).popped() == array,
{
    assert(array->Array_0.push(object).drop_last() =~= array->Array_0);
}

/// Equality does not look at the mark: a value equals what it equals whether
/// or not either of the two is marked as returning.
pub proof fn lemma_equality_ignores_mark(left: ObjectView, right: ObjectView, mark: Meta, other: Meta)
    ensures
        left.with_meta(mark).same_as(right.with_meta(other)) == left.same_as(right),
{
}

} // verus!
