//! Debug metadata of typed pointers: type, layout, element count and
//! mutability, checked on access and narrowed on offset and reborrow.

use vstd::prelude::*;

use core::alloc::Layout;
use core::any::TypeId;

verus! {

/// `core::any::TypeId`, carried through as an opaque value.
#[verifier::external_type_specification]
#[verifier::external_body]
pub struct ExTypeId(TypeId);

/// `core::alloc::Layout`, carried through as an opaque value; its size and
/// alignment are read into plain fields.
#[verifier::external_type_specification]
#[verifier::external_body]
pub struct ExLayout(Layout);

/// `<TypeId as PartialEq>::eq`: type ids are equal exactly when they are
/// the same value.
#[verifier::external_body]
pub(crate) fn type_id_eq(a: &TypeId, b: &TypeId) -> (r: bool)
    ensures
        r == (*a == *b),
{
    *a == *b
}

/// `Layout::new::<T>()`.
#[verifier::external_body]
fn layout_of<T>() -> Layout {
    Layout::new::<T>()
}

/// `Layout::size`.
#[verifier::external_body]
fn layout_size(layout: &Layout) -> usize {
    layout.size()
}

/// `Layout::align`: a power of two, so never zero.
#[verifier::external_body]
fn layout_align(layout: &Layout) -> (r: usize)
    ensures
        r > 0,
{
    layout.align()
}

/// Mutability of the pointed memory.
#[derive(Clone, Copy, Debug, PartialEq, Eq, Structural)]
pub enum Kind {
    /// Memory may be read and written.
    Mutable,
    /// Memory may be read.
    Immutable,
    /// No memory is pointed to.
    Dangling,
}

/// Debug metadata of a pointer.
pub struct Meta {
    id: TypeId,
    layout: Layout,
    size: usize,
    align: usize,
    count: usize,
    kind: Kind,
}

/// Something the metadata of a reference can be taken from.
pub trait GetMeta {
    /// Number of elements referenced.
    spec fn spec_count(&self) -> usize;

    /// Whether the reference is mutable.
    spec fn spec_mutable(&self) -> bool;

    /// Metadata of the reference.
    fn get(self) -> (m: Meta)
        ensures
            m.count() == self.spec_count(),
            m.kind() == (if self.spec_mutable() { Kind::Mutable } else { Kind::Immutable }),
    ;
}

impl<'a, T: 'static> GetMeta for &'a T {
    open spec fn spec_count(&self) -> usize {
        1
    }

    open spec fn spec_mutable(&self) -> bool {
        false
    }

    fn get(self) -> (m: Meta) {
        Meta::new(crate::type_id::<T>(), layout_of::<T>(), 1, Kind::Immutable)
    }
}

impl<'a, T: 'static> GetMeta for &'a mut T {
    open spec fn spec_count(&self) -> usize {
        1
    }

    open spec fn spec_mutable(&self) -> bool {
        true
    }

    fn get(self) -> (m: Meta) {
        Meta::new(crate::type_id::<T>(), layout_of::<T>(), 1, Kind::Mutable)
    }
}

impl<'a, T: 'static> GetMeta for &'a [T] {
    open spec fn spec_count(&self) -> usize {
        self@.len() as usize
    }

    open spec fn spec_mutable(&self) -> bool {
        false
    }

    fn get(self) -> (m: Meta) {
        Meta::new(crate::type_id::<T>(), layout_of::<T>(), self.len(), Kind::Immutable)
    }
}

impl<'a, T: 'static> GetMeta for &'a mut [T] {
    open spec fn spec_count(&self) -> usize {
        self@.len() as usize
    }

    open spec fn spec_mutable(&self) -> bool {
        true
    }

    fn get(self) -> (m: Meta) {
        Meta::new(crate::type_id::<T>(), layout_of::<T>(), self.len(), Kind::Mutable)
    }
}

impl Meta {
    /// Number of elements the pointer may reach.
    pub closed spec fn count(&self) -> usize {
        self.count
    }

    /// Mutability of the pointer.
    pub closed spec fn kind(&self) -> Kind {
        self.kind
    }

    /// Size of an element, as read from the layout.
    pub closed spec fn size(&self) -> usize {
        self.size
    }

    /// Alignment of an element, as read from the layout.
    pub closed spec fn align(&self) -> usize {
        self.align
    }

    /// Layout of an element.
    pub closed spec fn spec_layout(&self) -> Layout {
        self.layout
    }

    /// Type id of an element.
    pub closed spec fn type_id(&self) -> TypeId {
        self.id
    }

    /// Metadata from its parts.
    pub fn new(id: TypeId, layout: Layout, count: usize, kind: Kind) -> (m: Self)
        ensures
            m.type_id() == id,
            m.spec_layout() == layout,
            m.count() == count,
            m.kind() == kind,
            m.align() > 0,
    {
        let size = layout_size(&layout);
        let align = layout_align(&layout);
        Meta { id, layout, size, align, count, kind }
    }

    /// Metadata of a reference.
    pub fn from<T: GetMeta>(t: T) -> (m: Self)
        ensures
            m.count() == t.spec_count(),
            m.kind() == (if t.spec_mutable() { Kind::Mutable } else { Kind::Immutable }),
    {
        t.get()
    }

    /// Metadata of a dangling pointer to `T`.
    pub fn dangling<T: 'static>() -> (m: Self)
        ensures
            m.count() == 0,
            m.kind() == Kind::Dangling,
    {
        Meta::new(crate::type_id::<T>(), layout_of::<T>(), 0, Kind::Dangling)
    }

    /// Whether the pointer may be read as an element of the type `id`.
    pub fn has_type(&self, id: &TypeId) -> (r: bool)
        ensures
            r == (self.kind() != Kind::Dangling && self.type_id() == *id),
    {
        match self.kind {
            Kind::Immutable | Kind::Mutable => type_id_eq(&self.id, id),
            Kind::Dangling => false,
        }
    }

    /// Whether the pointer may be written as an element of the type `id`.
    pub fn has_type_mut(&self, id: &TypeId) -> (r: bool)
        ensures
            r == (self.kind() == Kind::Mutable && self.type_id() == *id),
    {
        match self.kind {
            Kind::Mutable => type_id_eq(&self.id, id),
            _ => false,
        }
    }

    /// Whether the pointer may be read as a `T`.
    pub fn is_valid<T: ?Sized + 'static>(&self) -> (r: bool)
        ensures
            r ==> self.kind() == Kind::Immutable || self.kind() == Kind::Mutable,
            self.kind() == Kind::Dangling ==> !r,
    {
        self.has_type(&crate::type_id::<T>())
    }

    /// Whether the pointer may be written as a `T`.
    pub fn is_valid_mut<T: ?Sized + 'static>(&self) -> (r: bool)
        ensures
            r ==> self.kind() == Kind::Mutable,
            self.kind() != Kind::Mutable ==> !r,
    {
        self.has_type_mut(&crate::type_id::<T>())
    }

    /// Whether the pointer is mutable.
    pub fn is_mut(&self) -> (r: bool)
        ensures
            r == (self.kind() == Kind::Mutable),
    {
        match self.kind {
            Kind::Mutable => true,
            _ => false,
        }
    }

    /// Layout of an element.
    pub fn layout(&self) -> (r: Layout)
        ensures
            r == self.spec_layout(),
    {
        self.layout
    }

    /// Metadata of the pointer advanced by `offset` bytes.
    /// The offset must be a whole number of elements within the count.
    pub fn add(&self, offset: usize) -> (m: Self)
        requires
            self.size() > 0,
            offset % self.size() == 0,
            offset % self.align() == 0,
            offset / self.size() <= self.count(),
        ensures
            m.type_id() == self.type_id(),
            m.spec_layout() == self.spec_layout(),
            m.size() == self.size(),
            m.align() == self.align(),
            m.count() == self.count() - offset / self.size(),
            m.kind() == self.kind(),
    {
        let offset = offset / self.size;
        Meta {
            id: self.id,
            layout: self.layout,
            size: self.size,
            align: self.align,
            count: self.count - offset,
            kind: self.kind,
        }
    }

    /// Metadata of a shared reborrow: mutable becomes immutable.
    pub fn borrow(&self) -> (m: Self)
        ensures
            m.type_id() == self.type_id(),
            m.spec_layout() == self.spec_layout(),
            m.size() == self.size(),
            m.align() == self.align(),
            m.count() == self.count(),
            m.kind() == (if self.kind() == Kind::Dangling { Kind::Dangling } else { Kind::Immutable }),
    {
        Meta {
            id: self.id,
            layout: self.layout,
            size: self.size,
            align: self.align,
            count: self.count,
            kind: match self.kind {
                Kind::Mutable | Kind::Immutable => Kind::Immutable,
                Kind::Dangling => Kind::Dangling,
            },
        }
    }

    /// Metadata of a mutable reborrow: unchanged.
    pub fn borrow_mut(&self) -> (m: Self)
        ensures
            m.type_id() == self.type_id(),
            m.spec_layout() == self.spec_layout(),
            m.size() == self.size(),
            m.align() == self.align(),
            m.count() == self.count(),
            m.kind() == self.kind(),
    {
        Meta {
            id: self.id,
            layout: self.layout,
            size: self.size,
            align: self.align,
            count: self.count,
            kind: self.kind,
        }
    }
}

} // verus!
