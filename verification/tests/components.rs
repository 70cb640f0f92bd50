use quill::style::component_plan::{
    animated_kinds, plan_component_updates, Animated, ComponentOp, ComputedPresence,
    PresentComponents, TransitionKind,
};

fn computed(bg: bool, image: bool) -> ComputedPresence {
    ComputedPresence {
        background_color: bg,
        background_image: image,
        border_color: true,
        outline_color: false,
        z_index: true,
        pickable: false,
    }
}

fn present(bg: bool, same_z: bool) -> PresentComponents {
    PresentComponents {
        style: true,
        background_color: bg,
        animated_background_color: false,
        border_color: false,
        animated_border_color: false,
        image: true,
        outline: true,
        z_index: true,
        same_z_index: same_z,
        pickable: false,
        transform: true,
        transform_differs: false,
        animated_transform: false,
        animated_target_differs: false,
    }
}

fn still() -> Animated {
    Animated {
        transform: false,
        background_color: false,
        border_color: false,
        layout: false,
    }
}

#[test]
fn component_plan_cases() {
    let plan = plan_component_updates(computed(false, false), still(), present(true, true));
    assert_eq!(plan.style, ComponentOp::Update);
    // No colour and no image: the background colour goes.
    assert_eq!(plan.background_color, ComponentOp::Remove);
    assert_eq!(plan.border_color, ComponentOp::Insert);
    assert_eq!(plan.image, ComponentOp::Remove);
    assert_eq!(plan.outline, ComponentOp::Remove);
    assert_eq!(plan.z_index, ComponentOp::Keep);
    assert_eq!(plan.pickable, ComponentOp::Keep);
    assert!(!plan.default_background);
    assert_eq!(plan.animated_background_color, ComponentOp::Keep);
    assert_eq!(plan.transform, ComponentOp::Keep);
    assert_eq!(plan.animated_transform, ComponentOp::Keep);
    // An image keeps the background colour that is there.
    let plan = plan_component_updates(computed(false, true), still(), present(true, false));
    assert_eq!(plan.background_color, ComponentOp::Keep);
    assert_eq!(plan.image, ComponentOp::Update);
    assert_eq!(plan.z_index, ComponentOp::Insert);
    // An image without a background colour gets the default one.
    let plan = plan_component_updates(computed(false, true), still(), present(false, true));
    assert_eq!(plan.background_color, ComponentOp::Keep);
    assert!(plan.default_background);
    let plan = plan_component_updates(computed(true, false), still(), present(false, true));
    assert_eq!(plan.background_color, ComponentOp::Insert);
}

#[test]
fn animated_kinds_of_transitions() {
    let a = animated_kinds(&vec![TransitionKind::Layout, TransitionKind::Transform]);
    assert!(a.layout && a.transform && !a.background_color && !a.border_color);
    let a = animated_kinds(&vec![]);
    assert!(!a.layout && !a.transform);
}

#[test]
fn colour_animations_are_removed() {
    let mut p = present(true, true);
    p.animated_background_color = true;
    p.animated_border_color = true;
    let plan = plan_component_updates(computed(true, false), still(), p);
    assert_eq!(plan.animated_background_color, ComponentOp::Remove);
    assert_eq!(plan.animated_border_color, ComponentOp::Remove);
    assert_eq!(plan.background_color, ComponentOp::Update);
}

#[test]
fn transform_and_its_animation() {
    let mut p = present(true, true);
    p.transform_differs = true;
    let plan = plan_component_updates(computed(true, false), still(), p);
    assert_eq!(plan.transform, ComponentOp::Update);
    assert_eq!(plan.animated_transform, ComponentOp::Keep);
    let mut moving = still();
    moving.transform = true;
    // No animation yet: one starts, and the transform is left to it.
    let plan = plan_component_updates(computed(true, false), moving, p);
    assert_eq!(plan.transform, ComponentOp::Keep);
    assert_eq!(plan.animated_transform, ComponentOp::Insert);
    p.animated_transform = true;
    let plan = plan_component_updates(computed(true, false), moving, p);
    assert_eq!(plan.animated_transform, ComponentOp::Keep);
    p.animated_target_differs = true;
    let plan = plan_component_updates(computed(true, false), moving, p);
    assert_eq!(plan.animated_transform, ComponentOp::Update);
}
