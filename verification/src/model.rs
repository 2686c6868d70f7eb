//! The type model: declarations of record and tagged-union shapes,
//! validated when they are declared.
//!
//! A model is an immutable registry of shapes.  Every shape reference in a
//! declaration (a field whose type is another entity, an arm whose payload is
//! another entity) names a shape that was declared earlier, so declarations
//! are acyclic by construction.  Within one union, wire tags are non-empty
//! and pairwise distinct, and arm names are pairwise distinct; within one
//! record or inline-field arm, field names are pairwise distinct.

use vstd::prelude::*;

verus! {

/// The primitive kinds a field can hold.
#[derive(Clone, Copy, PartialEq, Eq, Structural, Debug)]
pub enum PrimKind {
    Text,
    Int32,
    UInt32,
    Boolean,
}

/// The type of one declared field: a primitive kind, or a reference to an
/// already-declared shape, by its index in the model.
#[derive(Clone, Copy, PartialEq, Eq, Structural, Debug)]
pub enum FieldType {
    Prim(PrimKind),
    Entity(usize),
}

/// One declared field: its name and its type.
#[derive(Clone, Debug)]
pub struct FieldDecl {
    pub name: String,
    pub ty: FieldType,
}

/// Mathematical view of a field declaration.
pub ghost struct FieldDeclV {
    pub name: Seq<char>,
    pub ty: FieldType,
}

impl View for FieldDecl {
    type V = FieldDeclV;

    open spec fn view(&self) -> FieldDeclV {
        FieldDeclV { name: self.name@, ty: self.ty }
    }
}

/// The payload shape of one union arm: either fields declared inline on the
/// arm, or a reference to an already-declared entity (a record, or another
/// union nested inside this one).
#[derive(Clone, Debug)]
pub enum ArmShape {
    Inline(Vec<FieldDecl>),
    Entity(usize),
}

/// Mathematical view of an arm shape.
pub ghost enum ArmShapeV {
    Inline(Seq<FieldDeclV>),
    Entity(usize),
}

/// View of a sequence of field declarations.
pub open spec fn decls_view(fields: Seq<FieldDecl>) -> Seq<FieldDeclV> {
    Seq::new(fields.len(), |i: int| fields[i]@)
}

impl View for ArmShape {
    type V = ArmShapeV;

    open spec fn view(&self) -> ArmShapeV {
        match self {
            ArmShape::Inline(fields) => ArmShapeV::Inline(decls_view(fields@)),
            ArmShape::Entity(s) => ArmShapeV::Entity(*s),
        }
    }
}

/// One declared union arm: the wire tag written for it, its in-model name,
/// and its payload shape.
#[derive(Clone, Debug)]
pub struct ArmDecl {
    pub tag: String,
    pub name: String,
    pub shape: ArmShape,
}

/// Mathematical view of an arm declaration.
pub ghost struct ArmDeclV {
    pub tag: Seq<char>,
    pub name: Seq<char>,
    pub shape: ArmShapeV,
}

impl View for ArmDecl {
    type V = ArmDeclV;

    open spec fn view(&self) -> ArmDeclV {
        ArmDeclV { tag: self.tag@, name: self.name@, shape: self.shape@ }
    }
}

/// View of a sequence of arm declarations.
pub open spec fn arms_view(arms: Seq<ArmDecl>) -> Seq<ArmDeclV> {
    Seq::new(arms.len(), |i: int| arms[i]@)
}

/// One declared shape: a record of named fields, or a tagged union of arms.
#[derive(Clone, Debug)]
pub enum Shape {
    Record { name: String, fields: Vec<FieldDecl> },
    Union { name: String, arms: Vec<ArmDecl> },
}

/// Mathematical view of a shape.
pub ghost enum ShapeV {
    Record { name: Seq<char>, fields: Seq<FieldDeclV> },
    Union { name: Seq<char>, arms: Seq<ArmDeclV> },
}

impl View for Shape {
    type V = ShapeV;

    open spec fn view(&self) -> ShapeV {
        match self {
            Shape::Record { name, fields } => ShapeV::Record {
                name: name@,
                fields: decls_view(fields@),
            },
            Shape::Union { name, arms } => ShapeV::Union { name: name@, arms: arms_view(arms@) },
        }
    }
}

/// Why a declaration was rejected.
#[derive(Clone, PartialEq, Eq, Debug)]
pub enum ModelError {
    /// An arm's wire tag is the empty string; carries the arm's name.
    EmptyTag(String),
    /// Two arms of one union share this wire tag.
    DuplicateTag(String),
    /// Two fields of one record or inline arm, or two arms of one union,
    /// share this name.
    DuplicateName(String),
    /// A declaration references this shape index, which is not declared yet.
    UndeclaredShape(usize),
}

/// Mathematical view of a declaration error.
pub ghost enum ModelErrorV {
    EmptyTag(Seq<char>),
    DuplicateTag(Seq<char>),
    DuplicateName(Seq<char>),
    UndeclaredShape(usize),
}

impl View for ModelError {
    type V = ModelErrorV;

    open spec fn view(&self) -> ModelErrorV {
        match self {
            ModelError::EmptyTag(s) => ModelErrorV::EmptyTag(s@),
            ModelError::DuplicateTag(s) => ModelErrorV::DuplicateTag(s@),
            ModelError::DuplicateName(s) => ModelErrorV::DuplicateName(s@),
            ModelError::UndeclaredShape(s) => ModelErrorV::UndeclaredShape(*s),
        }
    }
}

/// A field type is well formed against a model holding `n_shapes` shapes.
pub open spec fn field_type_ok(n_shapes: int, ty: FieldType) -> bool {
    match ty {
        FieldType::Prim(_) => true,
        FieldType::Entity(s) => (s as int) < n_shapes,
    }
}

/// All field names of one record or inline arm are pairwise distinct.
pub open spec fn distinct_field_names(fields: Seq<FieldDeclV>) -> bool {
    forall|i: int, j: int|
        0 <= i < j < fields.len() ==> #[trigger] fields[i].name != #[trigger] fields[j].name
}

/// A field list is well formed: every type in range, names distinct.
pub open spec fn fields_ok(n_shapes: int, fields: Seq<FieldDeclV>) -> bool {
    &&& distinct_field_names(fields)
    &&& forall|i: int| 0 <= i < fields.len() ==> field_type_ok(n_shapes, #[trigger] fields[i].ty)
}

/// One arm is well formed on its own.
pub open spec fn arm_ok(n_shapes: int, arm: ArmDeclV) -> bool {
    &&& arm.tag.len() > 0
    &&& match arm.shape {
        ArmShapeV::Inline(fields) => fields_ok(n_shapes, fields),
        ArmShapeV::Entity(s) => (s as int) < n_shapes,
    }
}

/// All wire tags of one union are pairwise distinct.
pub open spec fn distinct_tags(arms: Seq<ArmDeclV>) -> bool {
    forall|i: int, j: int|
        0 <= i < j < arms.len() ==> #[trigger] arms[i].tag != #[trigger] arms[j].tag
}

/// All arm names of one union are pairwise distinct.
pub open spec fn distinct_arm_names(arms: Seq<ArmDeclV>) -> bool {
    forall|i: int, j: int|
        0 <= i < j < arms.len() ==> #[trigger] arms[i].name != #[trigger] arms[j].name
}

/// An arm list is well formed.
pub open spec fn arms_ok(n_shapes: int, arms: Seq<ArmDeclV>) -> bool {
    &&& distinct_tags(arms)
    &&& distinct_arm_names(arms)
    &&& forall|i: int| 0 <= i < arms.len() ==> arm_ok(n_shapes, #[trigger] arms[i])
}

/// A shape at index `at` is well formed: it may reference only shapes
/// declared strictly before it.
pub open spec fn shape_ok(at: int, shape: ShapeV) -> bool {
    match shape {
        ShapeV::Record { fields, .. } => fields_ok(at, fields),
        ShapeV::Union { arms, .. } => arms_ok(at, arms),
    }
}

/// Every shape of the model is well formed.
pub open spec fn valid_model(m: ModelV) -> bool {
    forall|i: int| 0 <= i < m.shapes.len() ==> shape_ok(i, #[trigger] m.shapes[i])
}

/// The first error in a field list, in the order the validator reports them:
/// for each field in turn, an out-of-range entity reference, then a later
/// duplicate of its name.
pub open spec fn fields_err(n_shapes: int, fields: Seq<FieldDeclV>) -> Option<ModelErrorV>
    decreases fields.len(),
{
    if fields.len() == 0 {
        None
    } else if !field_type_ok(n_shapes, fields[0].ty) {
        Some(ModelErrorV::UndeclaredShape(fields[0].ty->Entity_0))
    } else if exists|j: int| 1 <= j < fields.len() && (#[trigger] fields[j].name) == fields[0].name {
        Some(ModelErrorV::DuplicateName(fields[0].name))
    } else {
        fields_err(n_shapes, fields.drop_first())
    }
}

/// The first error in an arm list, in the order the validator reports them:
/// for each arm in turn, an empty tag, a later duplicate of its tag, a later
/// duplicate of its name, then the arm's own payload shape.
pub open spec fn arms_err(n_shapes: int, arms: Seq<ArmDeclV>) -> Option<ModelErrorV>
    decreases arms.len(),
{
    if arms.len() == 0 {
        None
    } else if arms[0].tag.len() == 0 {
        Some(ModelErrorV::EmptyTag(arms[0].name))
    } else if exists|j: int| 1 <= j < arms.len() && (#[trigger] arms[j].tag) == arms[0].tag {
        Some(ModelErrorV::DuplicateTag(arms[0].tag))
    } else if exists|j: int| 1 <= j < arms.len() && (#[trigger] arms[j].name) == arms[0].name {
        Some(ModelErrorV::DuplicateName(arms[0].name))
    } else {
        match arms[0].shape {
            ArmShapeV::Inline(fields) => {
                if fields_err(n_shapes, fields) is Some {
                    fields_err(n_shapes, fields)
                } else {
                    arms_err(n_shapes, arms.drop_first())
                }
            },
            ArmShapeV::Entity(s) => {
                if (s as int) >= n_shapes {
                    Some(ModelErrorV::UndeclaredShape(s))
                } else {
                    arms_err(n_shapes, arms.drop_first())
                }
            },
        }
    }
}

/// A field list passes the validator exactly when it is well formed.
pub proof fn lemma_fields_err_none(n_shapes: int, fields: Seq<FieldDeclV>)
    ensures
        fields_err(n_shapes, fields) is None <==> fields_ok(n_shapes, fields),
    decreases fields.len(),
{
    if fields.len() > 0 {
        lemma_fields_err_none(n_shapes, fields.drop_first());
        if fields_err(n_shapes, fields) is None {
            let rest = fields.drop_first();
            assert forall|i: int, j: int| 0 <= i < j < fields.len() implies #[trigger] fields[i].name
                != #[trigger] fields[j].name by {
                if i == 0 {
                    assert(fields[j] == rest[j - 1]);
                } else {
                    assert(fields[i] == rest[i - 1] && fields[j] == rest[j - 1]);
                }
            }
            assert forall|i: int| 0 <= i < fields.len() implies field_type_ok(
                n_shapes,
                #[trigger] fields[i].ty,
            ) by {
                if i > 0 {
                    assert(fields[i] == rest[i - 1]);
                }
            }
        } else if fields_ok(n_shapes, fields) {
            let rest = fields.drop_first();
            assert forall|i: int, j: int| 0 <= i < j < rest.len() implies #[trigger] rest[i].name
                != #[trigger] rest[j].name by {
                assert(rest[i] == fields[i + 1] && rest[j] == fields[j + 1]);
            }
            assert forall|i: int| 0 <= i < rest.len() implies field_type_ok(
                n_shapes,
                #[trigger] rest[i].ty,
            ) by {
                assert(rest[i] == fields[i + 1]);
            }
            assert(fields_err(n_shapes, rest) is None);
            assert(field_type_ok(n_shapes, fields[0].ty));
            assert forall|j: int| 1 <= j < fields.len() implies (#[trigger] fields[j].name)
                != fields[0].name by {}
        }
    }
}

/// An arm list passes the validator exactly when it is well formed.
pub proof fn lemma_arms_err_none(n_shapes: int, arms: Seq<ArmDeclV>)
    ensures
        arms_err(n_shapes, arms) is None <==> arms_ok(n_shapes, arms),
    decreases arms.len(),
{
    if arms.len() > 0 {
        let rest = arms.drop_first();
        lemma_arms_err_none(n_shapes, rest);
        assert forall|i: int| 0 <= i < rest.len() implies rest[i] == arms[i + 1] by {}
        if arms_err(n_shapes, arms) is None {
            match arms[0].shape {
                ArmShapeV::Inline(fields) => lemma_fields_err_none(n_shapes, fields),
                ArmShapeV::Entity(_) => {},
            }
            assert(arm_ok(n_shapes, arms[0]));
            assert forall|i: int, j: int| 0 <= i < j < arms.len() implies #[trigger] arms[i].tag
                != #[trigger] arms[j].tag by {
                if i > 0 {
                    assert(arms[i] == rest[i - 1] && arms[j] == rest[j - 1]);
                }
            }
            assert forall|i: int, j: int| 0 <= i < j < arms.len() implies #[trigger] arms[i].name
                != #[trigger] arms[j].name by {
                if i > 0 {
                    assert(arms[i] == rest[i - 1] && arms[j] == rest[j - 1]);
                }
            }
            assert forall|i: int| 0 <= i < arms.len() implies arm_ok(
                n_shapes,
                #[trigger] arms[i],
            ) by {
                if i > 0 {
                    assert(arms[i] == rest[i - 1]);
                }
            }
        } else if arms_ok(n_shapes, arms) {
            assert forall|i: int, j: int| 0 <= i < j < rest.len() implies #[trigger] rest[i].tag
                != #[trigger] rest[j].tag by {
                assert(rest[i] == arms[i + 1] && rest[j] == arms[j + 1]);
            }
            assert forall|i: int, j: int| 0 <= i < j < rest.len() implies #[trigger] rest[i].name
                != #[trigger] rest[j].name by {
                assert(rest[i] == arms[i + 1] && rest[j] == arms[j + 1]);
            }
            assert forall|i: int| 0 <= i < rest.len() implies arm_ok(
                n_shapes,
                #[trigger] rest[i],
            ) by {
                assert(rest[i] == arms[i + 1]);
            }
            assert(arms_ok(n_shapes, rest));
            assert(arm_ok(n_shapes, arms[0]));
            match arms[0].shape {
                ArmShapeV::Inline(fields) => lemma_fields_err_none(n_shapes, fields),
                ArmShapeV::Entity(_) => {},
            }
        }
    }
}

/// Declaring a union in which two arms share a wire tag always fails
/// validation, whatever else the declaration holds.
pub proof fn lemma_duplicate_tag_rejected(n_shapes: int, arms: Seq<ArmDeclV>, i: int, j: int)
    requires
        0 <= i < j < arms.len(),
        arms[i].tag == arms[j].tag,
    ensures
        arms_err(n_shapes, arms) is Some,
{
    if arms_err(n_shapes, arms) is None {
        lemma_arms_err_none(n_shapes, arms);
        assert(arms[i].tag != arms[j].tag);
    }
}

/// Mathematical view of a model: the sequence of declared shapes.
pub ghost struct ModelV {
    pub shapes: Seq<ShapeV>,
}

/// An immutable registry of declared shapes.  Entities are referenced by
/// the index that their declaration returned.
#[derive(Clone, Debug)]
pub struct Model {
    pub shapes: Vec<Shape>,
}

impl View for Model {
    type V = ModelV;

    open spec fn view(&self) -> ModelV {
        ModelV { shapes: Seq::new(self.shapes@.len(), |i: int| self.shapes@[i]@) }
    }
}

impl Model {
    /// An empty model, valid and holding no shapes.
    pub fn new() -> (r: Model)
        ensures
            r@.shapes.len() == 0,
            valid_model(r@),
    {
        Model { shapes: Vec::new() }
    }

    /// How many shapes are declared.
    pub fn shape_count(&self) -> (r: usize)
        ensures
            r == self@.shapes.len(),
    {
        self.shapes.len()
    }

    /// Validate a field list against the shapes declared so far, returning
    /// the first error found, in the validator's order.
    #[verifier::loop_isolation(false)]
    fn check_fields(&self, fields: &Vec<FieldDecl>) -> (r: Option<ModelError>)
        ensures
            match r {
                Some(e) => fields_err(self@.shapes.len() as int, decls_view(fields@)) == Some(e@),
                None => fields_err(self@.shapes.len() as int, decls_view(fields@)) is None,
            },
    {
        let n = self.shapes.len();
        let ghost fv = decls_view(fields@);
        proof {
            assert(fv.skip(0) =~= fv);
        }
        let mut i: usize = 0;
        while i < fields.len()
            invariant
                0 <= i <= fields.len(),
                fv == decls_view(fields@),
                fv.len() == fields@.len(),
                n == self@.shapes.len(),
                fields_err(n as int, fv) == fields_err(n as int, fv.skip(i as int)),
            decreases fields.len() - i,
        {
            let ghost pre = fv.skip(i as int);
            match fields[i].ty {
                FieldType::Prim(_) => {},
                FieldType::Entity(s) => {
                    if s >= n {
                        assert(pre[0] == fv[i as int]);
                        return Some(ModelError::UndeclaredShape(s));
                    }
                },
            }
            let mut j: usize = i + 1;
            while j < fields.len()
                invariant
                    i < j <= fields.len(),
                    fv == decls_view(fields@),
                    fv.len() == fields@.len(),
                    forall|k: int| i < k < j ==> (#[trigger] fv[k].name) != fv[i as int].name,
                decreases fields.len() - j,
            {
                if fields[j].name.eq(&fields[i].name) {
                    assert(fv[j as int].name == fv[i as int].name);
                    assert(pre[0] == fv[i as int] && pre[j - i] == fv[j as int]);
                    return Some(ModelError::DuplicateName(fields[i].name.clone()));
                }
                j += 1;
            }
            proof {
                assert(pre[0] == fv[i as int]);
                assert(field_type_ok(n as int, pre[0].ty));
                assert forall|k: int| 1 <= k < pre.len() implies (#[trigger] pre[k].name)
                    != pre[0].name by {
                    assert(pre[k] == fv[i + k]);
                }
                assert(pre.drop_first() =~= fv.skip(i + 1));
            }
            i += 1;
        }
        proof {
            assert(fv.skip(i as int) =~= Seq::<FieldDeclV>::empty());
        }
        None
    }

    /// Register a record shape.  On success the new shape's index is
    /// returned and the shape is appended; on failure the model is
    /// unchanged and the error is the first one the validator finds.
    pub fn declare_record(&mut self, name: String, fields: Vec<FieldDecl>) -> (r: Result<
        usize,
        ModelError,
    >)
        ensures
            match r {
                Ok(id) => {
                    &&& fields_err(old(self)@.shapes.len() as int, decls_view(fields@)) is None
                    &&& fields_ok(old(self)@.shapes.len() as int, decls_view(fields@))
                    &&& id == old(self)@.shapes.len()
                    &&& final(self)@.shapes == old(self)@.shapes.push(
                        ShapeV::Record { name: name@, fields: decls_view(fields@) },
                    )
                    &&& valid_model(old(self)@) ==> valid_model(final(self)@)
                },
                Err(e) => {
                    &&& fields_err(old(self)@.shapes.len() as int, decls_view(fields@)) == Some(e@)
                    &&& final(self)@ == old(self)@
                },
            },
    {
        match self.check_fields(&fields) {
            Some(e) => Err(e),
            None => {
                let id = self.shapes.len();
                proof {
                    lemma_fields_err_none(self@.shapes.len() as int, decls_view(fields@));
                }
                self.shapes.push(Shape::Record { name, fields });
                proof {
                    assert(self@.shapes =~= old(self)@.shapes.push(self@.shapes.last()));
                    if valid_model(old(self)@) {
                        assert forall|i: int| 0 <= i < self@.shapes.len() implies shape_ok(
                            i,
                            #[trigger] self@.shapes[i],
                        ) by {
                            if i < old(self)@.shapes.len() {
                                assert(self@.shapes[i] == old(self)@.shapes[i]);
                            }
                        }
                    }
                }
                Ok(id)
            },
        }
    }

    /// Validate an arm list against the shapes declared so far, returning
    /// the first error found, in the validator's order.
    #[verifier::loop_isolation(false)]
    fn check_arms(&self, arms: &Vec<ArmDecl>) -> (r: Option<ModelError>)
        ensures
            match r {
                Some(e) => arms_err(self@.shapes.len() as int, arms_view(arms@)) == Some(e@),
                None => arms_err(self@.shapes.len() as int, arms_view(arms@)) is None,
            },
    {
        let n = self.shapes.len();
        let ghost av = arms_view(arms@);
        proof {
            assert(av.skip(0) =~= av);
        }
        let mut i: usize = 0;
        while i < arms.len()
            invariant
                0 <= i <= arms.len(),
                av == arms_view(arms@),
                av.len() == arms@.len(),
                n == self@.shapes.len(),
                arms_err(n as int, av) == arms_err(n as int, av.skip(i as int)),
            decreases arms.len() - i,
        {
            let ghost pre = av.skip(i as int);
            proof {
                assert(pre[0] == av[i as int]);
            }
            if arms[i].tag.as_str().is_empty() {
                return Some(ModelError::EmptyTag(arms[i].name.clone()));
            }
            let mut j: usize = i + 1;
            while j < arms.len()
                invariant
                    i < j <= arms.len(),
                    av == arms_view(arms@),
                    av.len() == arms@.len(),
                    forall|k: int| i < k < j ==> (#[trigger] av[k].tag) != av[i as int].tag,
                decreases arms.len() - j,
            {
                if arms[j].tag.eq(&arms[i].tag) {
                    proof {
                        assert(pre[0] == av[i as int] && pre[j - i] == av[j as int]);
                        assert(1 <= j - i < pre.len() && pre[j - i].tag == pre[0].tag);
                    }
                    return Some(ModelError::DuplicateTag(arms[i].tag.clone()));
                }
                j += 1;
            }
            proof {
                assert forall|k: int| 1 <= k < pre.len() implies (#[trigger] pre[k].tag)
                    != pre[0].tag by {
                    assert(pre[k] == av[i + k]);
                }
            }
            let mut j2: usize = i + 1;
            while j2 < arms.len()
                invariant
                    i < j2 <= arms.len(),
                    av == arms_view(arms@),
                    av.len() == arms@.len(),
                    forall|k: int| i < k < j2 ==> (#[trigger] av[k].name) != av[i as int].name,
                decreases arms.len() - j2,
            {
                if arms[j2].name.eq(&arms[i].name) {
                    proof {
                        assert(pre[0] == av[i as int] && pre[j2 - i] == av[j2 as int]);
                        assert(1 <= j2 - i < pre.len() && pre[j2 - i].name == pre[0].name);
                    }
                    return Some(ModelError::DuplicateName(arms[i].name.clone()));
                }
                j2 += 1;
            }
            proof {
                assert forall|k: int| 1 <= k < pre.len() implies (#[trigger] pre[k].name)
                    != pre[0].name by {
                    assert(pre[k] == av[i + k]);
                }
            }
            match &arms[i].shape {
                ArmShape::Inline(fields) => {
                    match self.check_fields(fields) {
                        Some(e) => {
                            return Some(e);
                        },
                        None => {},
                    }
                },
                ArmShape::Entity(s) => {
                    if *s >= n {
                        return Some(ModelError::UndeclaredShape(*s));
                    }
                },
            }
            proof {
                assert(pre.drop_first() =~= av.skip(i + 1));
            }
            i += 1;
        }
        proof {
            assert(av.skip(i as int) =~= Seq::<ArmDeclV>::empty());
        }
        None
    }

    /// Register a tagged-union shape.  On success the new shape's index is
    /// returned and the shape is appended; on failure the model is
    /// unchanged and the error is the first one the validator finds.
    pub fn declare_union(&mut self, name: String, arms: Vec<ArmDecl>) -> (r: Result<
        usize,
        ModelError,
    >)
        ensures
            match r {
                Ok(id) => {
                    &&& arms_err(old(self)@.shapes.len() as int, arms_view(arms@)) is None
                    &&& arms_ok(old(self)@.shapes.len() as int, arms_view(arms@))
                    &&& id == old(self)@.shapes.len()
                    &&& final(self)@.shapes == old(self)@.shapes.push(
                        ShapeV::Union { name: name@, arms: arms_view(arms@) },
                    )
                    &&& valid_model(old(self)@) ==> valid_model(final(self)@)
                },
                Err(e) => {
                    &&& arms_err(old(self)@.shapes.len() as int, arms_view(arms@)) == Some(e@)
                    &&& final(self)@ == old(self)@
                },
            },
    {
        match self.check_arms(&arms) {
            Some(e) => Err(e),
            None => {
                let id = self.shapes.len();
                proof {
                    lemma_arms_err_none(self@.shapes.len() as int, arms_view(arms@));
                }
                self.shapes.push(Shape::Union { name, arms });
                proof {
                    assert(self@.shapes =~= old(self)@.shapes.push(self@.shapes.last()));
                    if valid_model(old(self)@) {
                        assert forall|i: int| 0 <= i < self@.shapes.len() implies shape_ok(
                            i,
                            #[trigger] self@.shapes[i],
                        ) by {
                            if i < old(self)@.shapes.len() {
                                assert(self@.shapes[i] == old(self)@.shapes[i]);
                            }
                        }
                    }
                }
                Ok(id)
            },
        }
    }
}

/// The index of the first arm carrying this wire tag, or `-1` if none does.
pub open spec fn tag_index(arms: Seq<ArmDeclV>, tag: Seq<char>) -> int
    decreases arms.len(),
{
    if arms.len() == 0 {
        -1
    } else if arms[0].tag == tag {
        0
    } else {
        let rest = tag_index(arms.drop_first(), tag);
        if rest < 0 {
            -1
        } else {
            rest + 1
        }
    }
}

/// What `tag_index` means: a non-negative result is the first matching arm;
/// a negative result means no arm carries the tag.
pub proof fn lemma_tag_index(arms: Seq<ArmDeclV>, tag: Seq<char>)
    ensures
        tag_index(arms, tag) < 0 ==> forall|i: int|
            0 <= i < arms.len() ==> (#[trigger] arms[i].tag) != tag,
        tag_index(arms, tag) >= 0 ==> {
            &&& 0 <= tag_index(arms, tag) < arms.len()
            &&& arms[tag_index(arms, tag)].tag == tag
        },
    decreases arms.len(),
{
    if arms.len() > 0 {
        let rest = arms.drop_first();
        lemma_tag_index(rest, tag);
        assert forall|i: int| 0 <= i < rest.len() implies rest[i] == arms[i + 1] by {}
        if arms[0].tag != tag && tag_index(arms, tag) < 0 {
            assert forall|i: int| 0 <= i < arms.len() implies (#[trigger] arms[i].tag) != tag by {
                if i > 0 {
                    assert(arms[i] == rest[i - 1]);
                }
            }
        }
    }
}


/// The index of the first arm carrying this in-model name, or `-1`.
pub open spec fn arm_name_index(arms: Seq<ArmDeclV>, name: Seq<char>) -> int
    decreases arms.len(),
{
    if arms.len() == 0 {
        -1
    } else if arms[0].name == name {
        0
    } else {
        let rest = arm_name_index(arms.drop_first(), name);
        if rest < 0 {
            -1
        } else {
            rest + 1
        }
    }
}

/// The arms of a union shape (empty for a record).
pub open spec fn arms_of(sh: ShapeV) -> Seq<ArmDeclV> {
    match sh {
        ShapeV::Union { arms, .. } => arms,
        ShapeV::Record { .. } => Seq::empty(),
    }
}

impl Model {
    /// Look an arm up by its wire tag: the first arm of the union at
    /// `shape` that carries `tag`, with its name and payload shape.
    #[verifier::loop_isolation(false)]
    pub fn arm_for_tag<'a>(&'a self, shape: usize, tag: &String) -> (r: Option<&'a ArmDecl>)
        ensures
            match r {
                Some(a) => {
                    &&& (shape as int) < self@.shapes.len()
                    &&& self@.shapes[shape as int] is Union
                    &&& 0 <= tag_index(arms_of(self@.shapes[shape as int]), tag@)
                    &&& a@ == arms_of(self@.shapes[shape as int])[tag_index(
                        arms_of(self@.shapes[shape as int]),
                        tag@,
                    )]
                    &&& a@.tag == tag@
                },
                None => (shape as int) >= self@.shapes.len() || !(self@.shapes[shape as int]
                    is Union) || tag_index(arms_of(self@.shapes[shape as int]), tag@) < 0,
            },
    {
        if shape >= self.shapes.len() {
            return None;
        }
        proof {
            assert(self@.shapes[shape as int] == self.shapes@[shape as int]@);
        }
        match &self.shapes[shape] {
            Shape::Record { .. } => None,
            Shape::Union { arms, .. } => {
                let ghost av = arms_view(arms@);
                proof {
                    assert(av.skip(0) =~= av);
                }
                let mut i: usize = 0;
                while i < arms.len()
                    invariant
                        0 <= i <= arms.len(),
                        tag_index(av, tag@) == (if tag_index(av.skip(i as int), tag@) < 0 {
                            -1int
                        } else {
                            tag_index(av.skip(i as int), tag@) + i
                        }),
                    decreases arms.len() - i,
                {
                    let ghost pre = av.skip(i as int);
                    proof {
                        assert(pre[0] == av[i as int]);
                    }
                    if arms[i].tag.eq(tag) {
                        return Some(&arms[i]);
                    }
                    proof {
                        assert(pre.drop_first() =~= av.skip(i + 1));
                    }
                    i += 1;
                }
                proof {
                    assert(av.skip(i as int) =~= Seq::<ArmDeclV>::empty());
                }
                None
            },
        }
    }

    /// Look an arm up by its in-model name: the first arm of the union at
    /// `shape` named `name`, with its wire tag and payload shape.
    #[verifier::loop_isolation(false)]
    pub fn arm_for_name<'a>(&'a self, shape: usize, name: &String) -> (r: Option<&'a ArmDecl>)
        ensures
            match r {
                Some(a) => {
                    &&& (shape as int) < self@.shapes.len()
                    &&& self@.shapes[shape as int] is Union
                    &&& 0 <= arm_name_index(arms_of(self@.shapes[shape as int]), name@)
                    &&& a@ == arms_of(self@.shapes[shape as int])[arm_name_index(
                        arms_of(self@.shapes[shape as int]),
                        name@,
                    )]
                    &&& a@.name == name@
                },
                None => (shape as int) >= self@.shapes.len() || !(self@.shapes[shape as int]
                    is Union) || arm_name_index(arms_of(self@.shapes[shape as int]), name@) < 0,
            },
    {
        if shape >= self.shapes.len() {
            return None;
        }
        proof {
            assert(self@.shapes[shape as int] == self.shapes@[shape as int]@);
        }
        match &self.shapes[shape] {
            Shape::Record { .. } => None,
            Shape::Union { arms, .. } => {
                let ghost av = arms_view(arms@);
                proof {
                    assert(av.skip(0) =~= av);
                }
                let mut i: usize = 0;
                while i < arms.len()
                    invariant
                        0 <= i <= arms.len(),
                        arm_name_index(av, name@) == (if arm_name_index(av.skip(i as int), name@)
                            < 0 {
                            -1int
                        } else {
                            arm_name_index(av.skip(i as int), name@) + i
                        }),
                    decreases arms.len() - i,
                {
                    let ghost pre = av.skip(i as int);
                    proof {
                        assert(pre[0] == av[i as int]);
                    }
                    if arms[i].name.eq(name) {
                        return Some(&arms[i]);
                    }
                    proof {
                        assert(pre.drop_first() =~= av.skip(i + 1));
                    }
                    i += 1;
                }
                proof {
                    assert(av.skip(i as int) =~= Seq::<ArmDeclV>::empty());
                }
                None
            },
        }
    }
}

} // verus!
