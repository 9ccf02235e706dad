use ray_tracer::scene::{
    Command, MaterialKey, PatternKind, Scene, SceneError, ShapeKind, TransformKind,
};

#[test]
fn what_an_entry_adds() {
    assert_eq!(Command::from_name("camera"), Command::Camera);
    assert_eq!(Command::from_name("light"), Command::Light);
    assert_eq!(Command::from_name("sphere"), Command::Shape);
    assert_eq!(Command::from_name("teapot"), Command::Shape);
    assert_eq!(Command::from_name("Camera"), Command::Shape);
    assert_eq!(Command::from_name(""), Command::Shape);
}

#[test]
fn the_names_of_the_shapes() {
    assert_eq!(ShapeKind::from_name("sphere"), Some(ShapeKind::Sphere));
    assert_eq!(ShapeKind::from_name("plane"), Some(ShapeKind::Plane));
    assert_eq!(ShapeKind::from_name("cube"), Some(ShapeKind::Cube));
    assert_eq!(ShapeKind::from_name("cylinder"), Some(ShapeKind::Cylinder));
    assert_eq!(ShapeKind::from_name("cone"), Some(ShapeKind::Cone));
    assert_eq!(ShapeKind::from_name("teapot"), None);
    assert_eq!(ShapeKind::from_name("spher"), None);
    assert_eq!(ShapeKind::from_name("spheres"), None);
    assert_eq!(ShapeKind::from_name("camera"), None);
}

#[test]
fn the_names_of_the_transform_steps() {
    assert_eq!(TransformKind::from_name("translate"), Some(TransformKind::Translate));
    assert_eq!(TransformKind::from_name("scale"), Some(TransformKind::Scale));
    assert_eq!(TransformKind::from_name("rotate-x"), Some(TransformKind::RotateX));
    assert_eq!(TransformKind::from_name("rotate-y"), Some(TransformKind::RotateY));
    assert_eq!(TransformKind::from_name("rotate-z"), Some(TransformKind::RotateZ));
    assert_eq!(TransformKind::from_name("shearing"), Some(TransformKind::Shearing));
    assert_eq!(TransformKind::from_name("shear"), None);
    assert_eq!(TransformKind::from_name("rotate"), None);
}

#[test]
fn how_many_numbers_a_transform_step_takes() {
    assert_eq!(TransformKind::Translate.arity(), 3);
    assert_eq!(TransformKind::Scale.arity(), 3);
    assert_eq!(TransformKind::RotateX.arity(), 1);
    assert_eq!(TransformKind::RotateY.arity(), 1);
    assert_eq!(TransformKind::RotateZ.arity(), 1);
    assert_eq!(TransformKind::Shearing.arity(), 6);
}

#[test]
fn the_names_of_the_patterns() {
    assert_eq!(PatternKind::from_name("checkers"), Some(PatternKind::Checkers));
    assert_eq!(PatternKind::from_name("gradient"), Some(PatternKind::Gradient));
    assert_eq!(PatternKind::from_name("ring"), Some(PatternKind::Ring));
    assert_eq!(PatternKind::from_name("stripe"), Some(PatternKind::Stripe));
    assert_eq!(PatternKind::from_name("stripes"), None);
}

#[test]
fn the_names_of_the_material_settings() {
    assert_eq!(MaterialKey::from_name("pattern"), Some(MaterialKey::Pattern));
    assert_eq!(MaterialKey::from_name("color"), Some(MaterialKey::Color));
    assert_eq!(MaterialKey::from_name("ambient"), Some(MaterialKey::Ambient));
    assert_eq!(MaterialKey::from_name("diffuse"), Some(MaterialKey::Diffuse));
    assert_eq!(MaterialKey::from_name("specular"), Some(MaterialKey::Specular));
    assert_eq!(MaterialKey::from_name("shininess"), Some(MaterialKey::Shininess));
    assert_eq!(MaterialKey::from_name("reflective"), Some(MaterialKey::Reflective));
    assert_eq!(MaterialKey::from_name("transparency"), Some(MaterialKey::Transparency));
    assert_eq!(MaterialKey::from_name("refractive-index"), Some(MaterialKey::RefractiveIndex));
    assert_eq!(MaterialKey::from_name("refractive_index"), None);
    assert_eq!(MaterialKey::from_name("colour"), None);
}

#[test]
fn a_scene_of_a_camera_a_light_and_three_primitives() {
    let mut scene: Scene<&str, &str, &str> = Scene::new();
    scene.add_camera(Some("camera"));
    scene.add_light(Some("light"));
    assert_eq!(scene.add_shape(Some("plane")), Ok(()));
    assert_eq!(scene.add_shape(Some("sphere")), Ok(()));
    assert_eq!(scene.add_shape(Some("cube")), Ok(()));

    assert_eq!(scene.finish(), Ok(("camera", "light", vec!["plane", "sphere", "cube"])));
}

#[test]
fn the_entries_may_come_in_any_order() {
    let mut scene: Scene<u8, u16, u32> = Scene::new();
    assert_eq!(scene.add_shape(Some(1)), Ok(()));
    scene.add_light(Some(2));
    assert_eq!(scene.add_shape(Some(3)), Ok(()));
    scene.add_camera(Some(4));

    assert_eq!(scene.finish(), Ok((4, 2, vec![1, 3])));
}

#[test]
fn a_scene_needs_a_light() {
    let mut scene: Scene<u8, u8, u8> = Scene::new();
    scene.add_camera(Some(1));
    assert_eq!(scene.finish(), Err(SceneError::LightMissing));

    // where both are missing it is the light that is missed
    let scene: Scene<u8, u8, u8> = Scene::new();
    assert_eq!(scene.finish(), Err(SceneError::LightMissing));
}

#[test]
fn a_scene_needs_a_camera() {
    let mut scene: Scene<u8, u8, u8> = Scene::new();
    scene.add_light(Some(1));
    assert_eq!(scene.add_shape(Some(2)), Ok(()));
    assert_eq!(scene.finish(), Err(SceneError::CameraMissing));
}

#[test]
fn the_last_camera_and_the_last_light_count() {
    let mut scene: Scene<u8, u8, u8> = Scene::new();
    scene.add_camera(Some(1));
    scene.add_light(Some(10));
    scene.add_camera(Some(2));
    scene.add_light(Some(20));
    assert_eq!(scene.finish(), Ok((2, 20, vec![])));

    // also where the last one could not be read
    let mut scene: Scene<u8, u8, u8> = Scene::new();
    scene.add_camera(Some(1));
    scene.add_light(Some(10));
    scene.add_camera(None);
    assert_eq!(scene.finish(), Err(SceneError::CameraMissing));

    let mut scene: Scene<u8, u8, u8> = Scene::new();
    scene.add_camera(Some(1));
    scene.add_light(Some(10));
    scene.add_light(None);
    assert_eq!(scene.finish(), Err(SceneError::LightMissing));
}

#[test]
fn a_primitive_that_cannot_be_read_ends_the_reading() {
    let mut scene: Scene<u8, u8, u8> = Scene::new();
    assert_eq!(scene.add_shape(Some(1)), Ok(()));
    assert_eq!(scene.add_shape(None), Err(SceneError::ShapeUnreadable));
    assert_eq!(scene.objects, vec![1]);
    assert_eq!(scene.camera, None);
    assert_eq!(scene.light, None);
}

#[test]
fn the_errors_in_words() {
    assert_eq!(SceneError::ShapeUnreadable.message(), "Can't parse shape from config");
    assert_eq!(SceneError::LightMissing.message(), "Light is required");
    assert_eq!(SceneError::CameraMissing.message(), "Camera is required");
}
