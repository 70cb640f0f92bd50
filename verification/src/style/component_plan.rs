//! Which engine components a computed style inserts, updates or removes on an element. The
//! values themselves (colours, lengths, transforms) are the engine's, and are written by the
//! caller; this module decides what is done with each component.
use vstd::prelude::*;

verus! {

/// What a transition animates.
#[derive(Clone, Copy, PartialEq, Eq, Structural, Debug)]
pub enum TransitionKind {
    /// The transform.
    Transform,
    /// The background colour.
    BackgroundColor,
    /// The border colour.
    BorderColor,
    /// A layout length: a size, a position or a border width.
    Layout,
}

/// Which kinds of property the transitions of a style animate.
#[derive(Clone, Copy, PartialEq, Eq, Structural, Debug)]
pub struct Animated {
    pub transform: bool,
    pub background_color: bool,
    pub border_color: bool,
    pub layout: bool,
}

/// Whether one of the transitions animates `kind`.
pub open spec fn animates(kinds: Seq<TransitionKind>, kind: TransitionKind) -> bool {
    exists|i: int| 0 <= i < kinds.len() && kinds[i] == kind
}

/// Which kinds of property the transitions `kinds` animate.
pub fn animated_kinds(kinds: &Vec<TransitionKind>) -> (r: Animated)
    ensures
        r.transform == animates(kinds@, TransitionKind::Transform),
        r.background_color == animates(kinds@, TransitionKind::BackgroundColor),
        r.border_color == animates(kinds@, TransitionKind::BorderColor),
        r.layout == animates(kinds@, TransitionKind::Layout),
{
    let mut r = Animated {
        transform: false,
        background_color: false,
        border_color: false,
        layout: false,
    };
    let mut i: usize = 0;
    while i < kinds.len()
        invariant
            i <= kinds.len(),
            r.transform == animates(kinds@.subrange(0, i as int), TransitionKind::Transform),
            r.background_color == animates(
                kinds@.subrange(0, i as int),
                TransitionKind::BackgroundColor,
            ),
            r.border_color == animates(kinds@.subrange(0, i as int), TransitionKind::BorderColor),
            r.layout == animates(kinds@.subrange(0, i as int), TransitionKind::Layout),
        decreases kinds.len() - i,
    {
        let ghost before = kinds@.subrange(0, i as int);
        let ghost after = kinds@.subrange(0, i + 1);
        proof {
            assert forall|k: TransitionKind|
                animates(after, k) == (animates(before, k) || kinds@[i as int] == k) by {
                if animates(after, k) {
                    let j = choose|j: int| 0 <= j < after.len() && after[j] == k;
                    if j < i {
                        assert(before[j] == k);
                    }
                }
                if animates(before, k) {
                    let j = choose|j: int| 0 <= j < before.len() && before[j] == k;
                    assert(after[j] == k);
                }
                if kinds@[i as int] == k {
                    assert(after[i as int] == k);
                }
            }
        }
        match kinds[i] {
            TransitionKind::Transform => r.transform = true,
            TransitionKind::BackgroundColor => r.background_color = true,
            TransitionKind::BorderColor => r.border_color = true,
            TransitionKind::Layout => r.layout = true,
        }
        i = i + 1;
    }
    assert(kinds@.subrange(0, i as int) =~= kinds@);
    r
}

/// What to do with one component of an element.
#[derive(Clone, Copy, PartialEq, Eq, Structural, Debug)]
pub enum ComponentOp {
    /// Leave it as it is, or leave it absent.
    Keep,
    /// Insert it, with the computed value.
    Insert,
    /// Write the computed value into the component that is there, where it differs.
    Update,
    /// Remove it.
    Remove,
}

/// What the computed style holds, as far as the choice of components goes.
#[derive(Clone, Copy, PartialEq, Eq, Structural, Debug)]
pub struct ComputedPresence {
    pub background_color: bool,
    pub background_image: bool,
    pub border_color: bool,
    pub outline_color: bool,
    pub z_index: bool,
    pub pickable: bool,
}

/// Which of the components the element has now. `same_z_index` tells whether the z-index it
/// has is the computed one; `transform_differs` whether its transform differs from the
/// computed one; `animated_target_differs` whether the target of its transform animation
/// differs from the computed transform.
#[derive(Clone, Copy, PartialEq, Eq, Structural, Debug)]
pub struct PresentComponents {
    pub style: bool,
    pub background_color: bool,
    pub animated_background_color: bool,
    pub border_color: bool,
    pub animated_border_color: bool,
    pub image: bool,
    pub outline: bool,
    pub z_index: bool,
    pub same_z_index: bool,
    pub pickable: bool,
    pub transform: bool,
    pub transform_differs: bool,
    pub animated_transform: bool,
    pub animated_target_differs: bool,
}

/// What to do with each component. `default_background` asks for a background colour of the
/// default value, which an image needs when no colour is computed. For `animated_transform`,
/// `Insert` starts an animation whose origin is the computed transform, and `Update` starts
/// one from the element's current transform towards the computed one.
#[derive(Clone, Copy, PartialEq, Eq, Structural, Debug)]
pub struct ComponentPlan {
    pub style: ComponentOp,
    pub background_color: ComponentOp,
    pub animated_background_color: ComponentOp,
    pub default_background: bool,
    pub border_color: ComponentOp,
    pub animated_border_color: ComponentOp,
    pub image: ComponentOp,
    pub outline: ComponentOp,
    pub z_index: ComponentOp,
    pub pickable: ComponentOp,
    pub transform: ComponentOp,
    pub animated_transform: ComponentOp,
}

/// A component whose value is optional in the computed style: updated when both are there,
/// removed when only the component is, inserted when only the value is.
pub open spec fn optional_op(computed: bool, present: bool) -> ComponentOp {
    if computed && present {
        ComponentOp::Update
    } else if present {
        ComponentOp::Remove
    } else if computed {
        ComponentOp::Insert
    } else {
        ComponentOp::Keep
    }
}

/// What becomes of the transform and of its animation. An animated transform leaves the
/// transform to the animation, which is started when there is none and restarted when its
/// target changed. Otherwise the transform is rewritten where it differs, and an animation
/// that is there stays.
pub open spec fn transform_ops(animated: bool, p: PresentComponents) -> (ComponentOp, ComponentOp) {
    if animated {
        if !p.animated_transform {
            (ComponentOp::Keep, ComponentOp::Insert)
        } else if p.animated_target_differs {
            (ComponentOp::Keep, ComponentOp::Update)
        } else {
            (ComponentOp::Keep, ComponentOp::Keep)
        }
    } else if p.transform_differs {
        (ComponentOp::Update, ComponentOp::Keep)
    } else {
        (ComponentOp::Keep, ComponentOp::Keep)
    }
}

/// The components that a computed style leads to, with colours that are not animated. The
/// style is updated when there is one and inserted otherwise. A background colour that is not
/// computed is removed, unless there is an image, and a default one is inserted for an image.
/// The animations of the two colours are removed. A z-index that is the same is kept.
pub open spec fn component_plan(
    c: ComputedPresence,
    a: Animated,
    p: PresentComponents,
) -> ComponentPlan {
    ComponentPlan {
        style: if p.style {
            ComponentOp::Update
        } else {
            ComponentOp::Insert
        },
        background_color: if p.background_color && !c.background_color
            && c.background_image {
            ComponentOp::Keep
        } else {
            optional_op(c.background_color, p.background_color)
        },
        animated_background_color: optional_op(false, p.animated_background_color),
        default_background: !p.background_color && !c.background_color && c.background_image,
        border_color: optional_op(c.border_color, p.border_color),
        animated_border_color: optional_op(false, p.animated_border_color),
        image: optional_op(c.background_image, p.image),
        outline: optional_op(c.outline_color, p.outline),
        z_index: if c.z_index && p.z_index && p.same_z_index {
            ComponentOp::Keep
        } else if c.z_index && p.z_index {
            ComponentOp::Insert
        } else {
            optional_op(c.z_index, p.z_index)
        },
        pickable: optional_op(c.pickable, p.pickable),
        transform: transform_ops(a.transform, p).0,
        animated_transform: transform_ops(a.transform, p).1,
    }
}

fn optional_op_exec(computed: bool, present: bool) -> (r: ComponentOp)
    ensures
        r == optional_op(computed, present),
{
    if computed && present {
        ComponentOp::Update
    } else if present {
        ComponentOp::Remove
    } else if computed {
        ComponentOp::Insert
    } else {
        ComponentOp::Keep
    }
}

/// What to do with each component of an element, given what the computed style holds, what
/// its transitions animate, and which components the element has. The element has a
/// transform, and neither colour is animated: the engine has no step for an animated colour
/// and stops there, as it does for an element without a transform.
pub fn plan_component_updates(c: ComputedPresence, a: Animated, p: PresentComponents) -> (r:
    ComponentPlan)
    requires
        p.transform,
        !a.background_color,
        !a.border_color,
    ensures
        r == component_plan(c, a, p),
{
    let style = if p.style {
        ComponentOp::Update
    } else {
        ComponentOp::Insert
    };
    let background_color = if p.background_color && !c.background_color && c.background_image {
        ComponentOp::Keep
    } else {
        optional_op_exec(c.background_color, p.background_color)
    };
    let z_index = if c.z_index && p.z_index && p.same_z_index {
        ComponentOp::Keep
    } else if c.z_index && p.z_index {
        ComponentOp::Insert
    } else {
        optional_op_exec(c.z_index, p.z_index)
    };
    let (transform, animated_transform) = if a.transform {
        if !p.animated_transform {
            (ComponentOp::Keep, ComponentOp::Insert)
        } else if p.animated_target_differs {
            (ComponentOp::Keep, ComponentOp::Update)
        } else {
            (ComponentOp::Keep, ComponentOp::Keep)
        }
    } else if p.transform_differs {
        (ComponentOp::Update, ComponentOp::Keep)
    } else {
        (ComponentOp::Keep, ComponentOp::Keep)
    };
    ComponentPlan {
        style,
        background_color,
        animated_background_color: optional_op_exec(false, p.animated_background_color),
        default_background: !p.background_color && !c.background_color && c.background_image,
        border_color: optional_op_exec(c.border_color, p.border_color),
        animated_border_color: optional_op_exec(false, p.animated_border_color),
        image: optional_op_exec(c.background_image, p.image),
        outline: optional_op_exec(c.outline_color, p.outline),
        z_index,
        pickable: optional_op_exec(c.pickable, p.pickable),
        transform,
        animated_transform,
    }
}

/// What becomes of each component, case by case. A component whose value the style may or
/// may not hold (border colour, image, outline, pickable) is inserted when the value is
/// computed and the element lacks it, updated when both are there, removed when only the
/// component is there, and left alone otherwise. The background colour goes the same way,
/// except that an image keeps the colour there and asks for a default one when there is none.
/// The colour animations are removed where they are. The style is updated where there is one
/// and inserted otherwise. A z-index is kept when it is the computed one, written when it
/// differs or is missing, and removed when none is computed. A transform that is not animated
/// is rewritten exactly when it differs; an animated one is left to its animation, which
/// starts when there is none, restarts when its target differs, and is left alone otherwise.
pub proof fn lemma_component_plan_cases(c: ComputedPresence, a: Animated, p: PresentComponents)
    ensures
        ({
            let r = component_plan(c, a, p);
            &&& (c.border_color && !p.border_color ==> r.border_color == ComponentOp::Insert)
            &&& (c.border_color && p.border_color ==> r.border_color == ComponentOp::Update)
            &&& (!c.border_color && p.border_color ==> r.border_color == ComponentOp::Remove)
            &&& (!c.border_color && !p.border_color ==> r.border_color == ComponentOp::Keep)
            &&& (c.background_image && !p.image ==> r.image == ComponentOp::Insert)
            &&& (c.background_image && p.image ==> r.image == ComponentOp::Update)
            &&& (!c.background_image && p.image ==> r.image == ComponentOp::Remove)
            &&& (!c.background_image && !p.image ==> r.image == ComponentOp::Keep)
            &&& (c.outline_color && !p.outline ==> r.outline == ComponentOp::Insert)
            &&& (c.outline_color && p.outline ==> r.outline == ComponentOp::Update)
            &&& (!c.outline_color && p.outline ==> r.outline == ComponentOp::Remove)
            &&& (!c.outline_color && !p.outline ==> r.outline == ComponentOp::Keep)
            &&& (c.pickable && !p.pickable ==> r.pickable == ComponentOp::Insert)
            &&& (c.pickable && p.pickable ==> r.pickable == ComponentOp::Update)
            &&& (!c.pickable && p.pickable ==> r.pickable == ComponentOp::Remove)
            &&& (!c.pickable && !p.pickable ==> r.pickable == ComponentOp::Keep)
            &&& (c.background_color && !p.background_color ==> r.background_color
                == ComponentOp::Insert)
            &&& (c.background_color && p.background_color ==> r.background_color
                == ComponentOp::Update)
            &&& (!c.background_color && p.background_color && !c.background_image
                ==> r.background_color == ComponentOp::Remove)
            &&& (!c.background_color && p.background_color && c.background_image
                ==> r.background_color == ComponentOp::Keep)
            &&& (!c.background_color && !p.background_color ==> r.background_color
                == ComponentOp::Keep)
            &&& (r.default_background <==> (!c.background_color && !p.background_color
                && c.background_image))
            &&& (p.animated_background_color ==> r.animated_background_color
                == ComponentOp::Remove)
            &&& (!p.animated_background_color ==> r.animated_background_color
                == ComponentOp::Keep)
            &&& (p.animated_border_color ==> r.animated_border_color == ComponentOp::Remove)
            &&& (!p.animated_border_color ==> r.animated_border_color == ComponentOp::Keep)
            &&& (p.style ==> r.style == ComponentOp::Update)
            &&& (!p.style ==> r.style == ComponentOp::Insert)
            &&& (c.z_index && p.z_index && p.same_z_index ==> r.z_index == ComponentOp::Keep)
            &&& (c.z_index && p.z_index && !p.same_z_index ==> r.z_index == ComponentOp::Insert)
            &&& (c.z_index && !p.z_index ==> r.z_index == ComponentOp::Insert)
            &&& (!c.z_index && p.z_index ==> r.z_index == ComponentOp::Remove)
            &&& (!c.z_index && !p.z_index ==> r.z_index == ComponentOp::Keep)
            &&& (!a.transform && p.transform_differs ==> r.transform == ComponentOp::Update)
            &&& (!a.transform && !p.transform_differs ==> r.transform == ComponentOp::Keep)
            &&& (!a.transform ==> r.animated_transform == ComponentOp::Keep)
            &&& (a.transform ==> r.transform == ComponentOp::Keep)
            &&& (a.transform && !p.animated_transform ==> r.animated_transform
                == ComponentOp::Insert)
            &&& (a.transform && p.animated_transform && p.animated_target_differs
                ==> r.animated_transform == ComponentOp::Update)
            &&& (a.transform && p.animated_transform && !p.animated_target_differs
                ==> r.animated_transform == ComponentOp::Keep)
        }),
{
}

} // verus!
