//! The vocabulary of a scene description: the words that name what is added
//! to a scene, the steps of a transform, the kinds of pattern and the
//! settings of a material.
//!
//! A scene description is a list of entries. Each says what it adds: the
//! camera, the light, or a primitive of some shape. What the numbers in an
//! entry mean is decided by the words classified here, and what becomes of
//! the entries one after the other is decided by the [`Scene`] they are
//! added to.

use vstd::prelude::*;
use vstd::string::StringExecFns;

verus! {

/// What an entry adds to the scene.
#[derive(Debug, Clone, Copy, PartialEq, Eq, Structural)]
pub enum Command {
    Camera,
    Light,
    /// Anything that is neither the camera nor the light is taken for a
    /// primitive; whether it names a known shape is a second question.
    Shape,
}

/// The shapes a primitive can have.
#[derive(Debug, Clone, Copy, PartialEq, Eq, Structural)]
pub enum ShapeKind {
    Sphere,
    Plane,
    Cube,
    Cylinder,
    Cone,
}

/// The steps a transform is composed of.
#[derive(Debug, Clone, Copy, PartialEq, Eq, Structural)]
pub enum TransformKind {
    Translate,
    Scale,
    RotateX,
    RotateY,
    RotateZ,
    Shearing,
}

/// The procedural patterns.
#[derive(Debug, Clone, Copy, PartialEq, Eq, Structural)]
pub enum PatternKind {
    Checkers,
    Gradient,
    Ring,
    Stripe,
}

/// The settings of a material.
#[derive(Debug, Clone, Copy, PartialEq, Eq, Structural)]
pub enum MaterialKey {
    Pattern,
    Color,
    Ambient,
    Diffuse,
    Specular,
    Shininess,
    Reflective,
    Transparency,
    RefractiveIndex,
}

/// What an entry that adds `name` adds.
pub open spec fn command_named(name: Seq<char>) -> Command {
    if name == "camera"@ {
        Command::Camera
    } else if name == "light"@ {
        Command::Light
    } else {
        Command::Shape
    }
}

/// The shape called `name`, if there is one.
pub open spec fn shape_named(name: Seq<char>) -> Option<ShapeKind> {
    if name == "sphere"@ {
        Some(ShapeKind::Sphere)
    } else if name == "plane"@ {
        Some(ShapeKind::Plane)
    } else if name == "cube"@ {
        Some(ShapeKind::Cube)
    } else if name == "cylinder"@ {
        Some(ShapeKind::Cylinder)
    } else if name == "cone"@ {
        Some(ShapeKind::Cone)
    } else {
        None
    }
}

/// The transform step called `name`, if there is one.
pub open spec fn transform_named(name: Seq<char>) -> Option<TransformKind> {
    if name == "translate"@ {
        Some(TransformKind::Translate)
    } else if name == "scale"@ {
        Some(TransformKind::Scale)
    } else if name == "rotate-x"@ {
        Some(TransformKind::RotateX)
    } else if name == "rotate-y"@ {
        Some(TransformKind::RotateY)
    } else if name == "rotate-z"@ {
        Some(TransformKind::RotateZ)
    } else if name == "shearing"@ {
        Some(TransformKind::Shearing)
    } else {
        None
    }
}

/// The pattern called `name`, if there is one.
pub open spec fn pattern_named(name: Seq<char>) -> Option<PatternKind> {
    if name == "checkers"@ {
        Some(PatternKind::Checkers)
    } else if name == "gradient"@ {
        Some(PatternKind::Gradient)
    } else if name == "ring"@ {
        Some(PatternKind::Ring)
    } else if name == "stripe"@ {
        Some(PatternKind::Stripe)
    } else {
        None
    }
}

/// The material setting called `name`, if there is one.
pub open spec fn material_key_named(name: Seq<char>) -> Option<MaterialKey> {
    if name == "pattern"@ {
        Some(MaterialKey::Pattern)
    } else if name == "color"@ {
        Some(MaterialKey::Color)
    } else if name == "ambient"@ {
        Some(MaterialKey::Ambient)
    } else if name == "diffuse"@ {
        Some(MaterialKey::Diffuse)
    } else if name == "specular"@ {
        Some(MaterialKey::Specular)
    } else if name == "shininess"@ {
        Some(MaterialKey::Shininess)
    } else if name == "reflective"@ {
        Some(MaterialKey::Reflective)
    } else if name == "transparency"@ {
        Some(MaterialKey::Transparency)
    } else if name == "refractive-index"@ {
        Some(MaterialKey::RefractiveIndex)
    } else {
        None
    }
}

/// Whether two string slices hold the same characters.
fn same_text(a: &str, b: &str) -> (same: bool)
    ensures
        same == (a@ == b@),
{
    let left = a.to_owned();
    let right = b.to_owned();
    left == right
}

impl Command {
    /// What an entry that adds `name` adds.
    pub fn from_name(name: &str) -> (command: Command)
        ensures
            command == command_named(name@),
    {
        if same_text(name, "camera") {
            Command::Camera
        } else if same_text(name, "light") {
            Command::Light
        } else {
            Command::Shape
        }
    }
}

impl ShapeKind {
    /// The shape called `name`, or `None` for an unknown word.
    pub fn from_name(name: &str) -> (kind: Option<ShapeKind>)
        ensures
            kind == shape_named(name@),
    {
        if same_text(name, "sphere") {
            Some(ShapeKind::Sphere)
        } else if same_text(name, "plane") {
            Some(ShapeKind::Plane)
        } else if same_text(name, "cube") {
            Some(ShapeKind::Cube)
        } else if same_text(name, "cylinder") {
            Some(ShapeKind::Cylinder)
        } else if same_text(name, "cone") {
            Some(ShapeKind::Cone)
        } else {
            None
        }
    }
}

impl TransformKind {
    /// The transform step called `name`, or `None` for an unknown word.
    pub fn from_name(name: &str) -> (kind: Option<TransformKind>)
        ensures
            kind == transform_named(name@),
    {
        if same_text(name, "translate") {
            Some(TransformKind::Translate)
        } else if same_text(name, "scale") {
            Some(TransformKind::Scale)
        } else if same_text(name, "rotate-x") {
            Some(TransformKind::RotateX)
        } else if same_text(name, "rotate-y") {
            Some(TransformKind::RotateY)
        } else if same_text(name, "rotate-z") {
            Some(TransformKind::RotateZ)
        } else if same_text(name, "shearing") {
            Some(TransformKind::Shearing)
        } else {
            None
        }
    }

    /// How many numbers the step takes.
    pub open spec fn spec_arity(self) -> usize {
        match self {
            TransformKind::Translate => 3,
            TransformKind::Scale => 3,
            TransformKind::RotateX => 1,
            TransformKind::RotateY => 1,
            TransformKind::RotateZ => 1,
            TransformKind::Shearing => 6,
        }
    }

    /// How many numbers the step takes.
    #[verifier::when_used_as_spec(spec_arity)]
    pub fn arity(self) -> (count: usize)
        ensures
            count == self.spec_arity(),
    {
        match self {
            TransformKind::Translate => 3,
            TransformKind::Scale => 3,
            TransformKind::RotateX => 1,
            TransformKind::RotateY => 1,
            TransformKind::RotateZ => 1,
            TransformKind::Shearing => 6,
        }
    }
}

impl PatternKind {
    /// The pattern called `name`, or `None` for an unknown word.
    pub fn from_name(name: &str) -> (kind: Option<PatternKind>)
        ensures
            kind == pattern_named(name@),
    {
        if same_text(name, "checkers") {
            Some(PatternKind::Checkers)
        } else if same_text(name, "gradient") {
            Some(PatternKind::Gradient)
        } else if same_text(name, "ring") {
            Some(PatternKind::Ring)
        } else if same_text(name, "stripe") {
            Some(PatternKind::Stripe)
        } else {
            None
        }
    }
}

impl MaterialKey {
    /// The material setting called `name`, or `None` for a word that a
    /// material ignores.
    pub fn from_name(name: &str) -> (key: Option<MaterialKey>)
        ensures
            key == material_key_named(name@),
    {
        if same_text(name, "pattern") {
            Some(MaterialKey::Pattern)
        } else if same_text(name, "color") {
            Some(MaterialKey::Color)
        } else if same_text(name, "ambient") {
            Some(MaterialKey::Ambient)
        } else if same_text(name, "diffuse") {
            Some(MaterialKey::Diffuse)
        } else if same_text(name, "specular") {
            Some(MaterialKey::Specular)
        } else if same_text(name, "shininess") {
            Some(MaterialKey::Shininess)
        } else if same_text(name, "reflective") {
            Some(MaterialKey::Reflective)
        } else if same_text(name, "transparency") {
            Some(MaterialKey::Transparency)
        } else if same_text(name, "refractive-index") {
            Some(MaterialKey::RefractiveIndex)
        } else {
            None
        }
    }
}

/// Why a description gives no scene.
#[derive(Debug, Clone, Copy, PartialEq, Eq, Structural)]
pub enum SceneError {
    /// An entry adds a primitive that cannot be read.
    ShapeUnreadable,
    /// No entry adds a light that can be read.
    LightMissing,
    /// No entry adds a camera that can be read.
    CameraMissing,
}

impl SceneError {
    /// The error in words.
    pub open spec fn spec_message(self) -> Seq<char> {
        match self {
            SceneError::ShapeUnreadable => "Can't parse shape from config"@,
            SceneError::LightMissing => "Light is required"@,
            SceneError::CameraMissing => "Camera is required"@,
        }
    }

    /// The error in words.
    pub fn message(&self) -> (text: String)
        ensures
            text@ == self.spec_message(),
    {
        match self {
            SceneError::ShapeUnreadable => String::from_str("Can't parse shape from config"),
            SceneError::LightMissing => String::from_str("Light is required"),
            SceneError::CameraMissing => String::from_str("Camera is required"),
        }
    }
}

/// A scene in the making: what the entries read so far have added.
///
/// The camera, the light and the primitives may be of any type; what is
/// decided here is what an entry does to the scene, whatever it holds.
pub struct Scene<C, L, S> {
    /// What the last camera entry gave: `None` if there was none yet or if
    /// the last one could not be read.
    pub camera: Option<C>,
    /// What the last light entry gave, likewise.
    pub light: Option<L>,
    /// The primitives, in the order of their entries.
    pub objects: Vec<S>,
}

impl<C, L, S> Scene<C, L, S> {
    /// A scene to which nothing has been added.
    pub fn new() -> (scene: Self)
        ensures
            scene.camera.is_none(),
            scene.light.is_none(),
            scene.objects@ == Seq::<S>::empty(),
    {
        Scene { camera: None, light: None, objects: Vec::new() }
    }

    /// A camera entry: its camera replaces the one before, also where it
    /// could not be read.
    pub fn add_camera(&mut self, camera: Option<C>)
        ensures
            final(self).camera == camera,
            final(self).light == old(self).light,
            final(self).objects == old(self).objects,
    {
        self.camera = camera;
    }

    /// A light entry: its light replaces the one before, also where it
    /// could not be read.
    pub fn add_light(&mut self, light: Option<L>)
        ensures
            final(self).light == light,
            final(self).camera == old(self).camera,
            final(self).objects == old(self).objects,
    {
        self.light = light;
    }

    /// An entry for a primitive: the primitive joins the scene behind the
    /// others; one that could not be read ends the reading.
    pub fn add_shape(&mut self, shape: Option<S>) -> (done: Result<(), SceneError>)
        ensures
            final(self).camera == old(self).camera,
            final(self).light == old(self).light,
            match shape {
                Some(s) => {
                    &&& done.is_ok()
                    &&& final(self).objects@ == old(self).objects@.push(s)
                },
                None => {
                    &&& done == Err::<(), SceneError>(SceneError::ShapeUnreadable)
                    &&& final(self).objects@ == old(self).objects@
                },
            },
    {
        match shape {
            Some(s) => {
                self.objects.push(s);
                Ok(())
            },
            None => Err(SceneError::ShapeUnreadable),
        }
    }

    /// The scene once every entry is read: it needs a light and a camera,
    /// and where both are missing it is the light that is missed.
    pub fn finish(self) -> (scene: Result<(C, L, Vec<S>), SceneError>)
        ensures
            scene == match (self.light, self.camera) {
                (Some(light), Some(camera)) => Ok::<(C, L, Vec<S>), SceneError>(
                    (camera, light, self.objects),
                ),
                (None, _) => Err(SceneError::LightMissing),
                (Some(_), None) => Err(SceneError::CameraMissing),
            },
    {
        match self.light {
            Some(light) => match self.camera {
                Some(camera) => Ok((camera, light, self.objects)),
                None => Err(SceneError::CameraMissing),
            },
            None => Err(SceneError::LightMissing),
        }
    }
}

} // verus!
