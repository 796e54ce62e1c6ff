//! Ready-made scenes.

use vstd::prelude::*;
use crate::hittable::{triangle_of, HittableList, Primitive, Sphere, Triangle};
use crate::material::Material;
use crate::random::random_unit;
use crate::scalar::{fx_add, fx_mul, fx_whole, s_add, s_mul, s_whole, ONE};
use crate::utilities::{gray, green, red};
use crate::vec3::{
    is_unit_draw, v_div, v_mul, v_norm_squared, v_offset, v_sub, Color, Vec3,
};

verus! {

/// The point with the given whole-number coordinates.
#[verifier::opaque]
pub open spec fn grid_point(x: int, y: int, z: int) -> Vec3 {
    Vec3 { x: (x * ONE) as i64, y: (y * ONE) as i64, z: (z * ONE) as i64 }
}

/// The point with the given whole-number coordinates.
pub fn point(x: i32, y: i32, z: i32) -> (p: Vec3)
    ensures
        p == grid_point(x as int, y as int, z as int),
{
    proof {
        reveal(grid_point);
    }
    Vec3::new(fx_whole(x), fx_whole(y), fx_whole(z))
}

/// A diffuse triangle.
#[verifier::opaque]
pub open spec fn wall_of(a: Vec3, b: Vec3, c: Vec3, albedo: Color) -> Primitive {
    Primitive::Triangle(triangle_of(a, b, c, Material::Lambertian { albedo }))
}

/// A diffuse triangle.
pub fn wall(a: Vec3, b: Vec3, c: Vec3, albedo: Color) -> (p: Primitive)
    ensures
        p == wall_of(a, b, c, albedo),
{
    proof {
        reveal(wall_of);
    }
    Primitive::Triangle(Triangle::new(a, b, c, Material::Lambertian { albedo }))
}

/// The light of the room: a small bright sphere under the ceiling.
pub open spec fn room_light() -> Primitive {
    Primitive::Sphere(
        Sphere {
            center: Vec3 { x: 0, y: 1_800_000_000, z: ONE },
            radius: 200_000_000,
            material: Material::LightSource {
                intensity: Vec3 { x: 5_000_000_000, y: 5_000_000_000, z: 5_000_000_000 },
            },
        },
    )
}

/// The surfaces of the room: an open box of ten triangles, gray at the
/// back, floor and ceiling, green on the left and red on the right, and a
/// light inside.
pub open spec fn room() -> Seq<Primitive> {
    seq![
        wall_of(grid_point(-2, -2, 0), grid_point(-2, 2, 0), grid_point(2, -2, 0), gray()),
        wall_of(grid_point(2, 2, 0), grid_point(-2, 2, 0), grid_point(2, -2, 0), gray()),
        wall_of(grid_point(-2, -2, 0), grid_point(-2, 2, 0), grid_point(-2, -2, 2), green()),
        wall_of(grid_point(-2, 2, 0), grid_point(-2, 2, 2), grid_point(-2, -2, 2), green()),
        wall_of(grid_point(2, -2, 0), grid_point(2, -2, 2), grid_point(2, 2, 2), red()),
        wall_of(grid_point(2, -2, 0), grid_point(2, 2, 2), grid_point(2, 2, 0), red()),
        wall_of(grid_point(-2, -2, 0), grid_point(-2, -2, 2), grid_point(2, -2, 0), gray()),
        wall_of(grid_point(2, -2, 0), grid_point(-2, -2, 2), grid_point(2, -2, 2), gray()),
        wall_of(grid_point(-2, 2, 0), grid_point(-2, 2, 2), grid_point(2, 2, 0), gray()),
        wall_of(grid_point(2, 2, 0), grid_point(-2, 2, 2), grid_point(2, 2, 2), gray()),
        room_light(),
    ]
}

/// Adds the room to `world`.
pub fn scene_2(world: &mut HittableList)
    ensures
        final(world)@ == old(world)@ + room(),
{
    world.add(wall(point(-2, -2, 0), point(-2, 2, 0), point(2, -2, 0), gray()));
    world.add(wall(point(2, 2, 0), point(-2, 2, 0), point(2, -2, 0), gray()));
    world.add(wall(point(-2, -2, 0), point(-2, 2, 0), point(-2, -2, 2), green()));
    world.add(wall(point(-2, 2, 0), point(-2, 2, 2), point(-2, -2, 2), green()));
    world.add(wall(point(2, -2, 0), point(2, -2, 2), point(2, 2, 2), red()));
    world.add(wall(point(2, -2, 0), point(2, 2, 2), point(2, 2, 0), red()));
    world.add(wall(point(-2, -2, 0), point(-2, -2, 2), point(2, -2, 0), gray()));
    world.add(wall(point(2, -2, 0), point(-2, -2, 2), point(2, -2, 2), gray()));
    world.add(wall(point(-2, 2, 0), point(-2, 2, 2), point(2, 2, 0), gray()));
    world.add(wall(point(2, 2, 0), point(-2, 2, 2), point(2, 2, 2), gray()));
    world.add(
        Primitive::Sphere(
            Sphere::new(
                Vec3::new(0, 1_800_000_000, ONE),
                200_000_000,
                Material::LightSource {
                    intensity: Vec3::new(5_000_000_000, 5_000_000_000, 5_000_000_000),
                },
            ),
        ),
    );
    assert(world@ =~= old(world)@ + room());
}

/// The random numbers that place one sphere of the field and pick its
/// material.
#[derive(Clone, Copy, Debug, PartialEq, Eq, Structural)]
pub struct SphereDraw {
    /// Picks the kind of material.
    pub choice: i64,
    /// Moves the centre along x, by up to one and a half.
    pub dx: i64,
    /// Moves the centre along z, by up to one and a half.
    pub dz: i64,
    /// The first vector of which the albedo is made.
    pub first: Vec3,
    /// The second vector of which a diffuse albedo is made.
    pub second: Vec3,
}

/// Whether `d` is in the range of what is drawn.
pub open spec fn is_sphere_draw(d: SphereDraw) -> bool {
    0 <= d.choice < ONE && 0 <= d.dx < ONE && 0 <= d.dz < ONE && is_unit_draw(d.first)
        && is_unit_draw(d.second)
}

/// The radius of the spheres of the field, and the height of their
/// centres: `0.2`.
pub const FIELD_RADIUS: i64 = 200_000_000;

/// The centre of the sphere in cell `(a, b)` of the field.
pub open spec fn field_center(a: i32, b: i32, d: SphereDraw) -> Vec3 {
    Vec3 {
        x: s_add(s_whole(a), s_mul(1_500_000_000, d.dx)),
        y: FIELD_RADIUS,
        z: s_add(s_whole(b), s_mul(1_500_000_000, d.dz)),
    }
}

/// The material of a sphere of the field: diffuse for seven draws in ten,
/// with the product of two random vectors as albedo; a mirror for the next
/// three in twenty, with an albedo between a half and one; glass else.
pub open spec fn field_material(d: SphereDraw) -> Material {
    if d.choice < 700_000_000 {
        Material::Lambertian { albedo: v_mul(d.first, d.second) }
    } else if d.choice < 850_000_000 {
        Material::Metal { albedo: v_div(v_offset(d.first, ONE), (2 * ONE) as i64), fuzz: 0 }
    } else {
        Material::Dielectric { refraction_index: 1_500_000_000 }
    }
}

/// The sphere in cell `(a, b)` of the field, if there is one: a cell stays
/// empty where its sphere would come too near the point `(4, 0.2, -1)`.
pub open spec fn field_sphere_of(a: i32, b: i32, d: SphereDraw) -> Option<Sphere> {
    let center = field_center(a, b, d);
    let keep_clear = Vec3 { x: (4 * ONE) as i64, y: FIELD_RADIUS, z: (-ONE) as i64 };
    if v_norm_squared(v_sub(center, keep_clear)) > 900_000_000 {
        Some(Sphere { center, radius: FIELD_RADIUS, material: field_material(d) })
    } else {
        None
    }
}

/// The surfaces of the cells of a field, in order; an empty cell adds none.
pub open spec fn placed(cells: Seq<Option<Sphere>>) -> Seq<Primitive>
    decreases cells.len(),
{
    if cells.len() == 0 {
        Seq::<Primitive>::empty()
    } else {
        match cells.last() {
            Some(s) => placed(cells.drop_last()).push(Primitive::Sphere(s)),
            None => placed(cells.drop_last()),
        }
    }
}

/// Whether `cell` is what cell number `k` of the field may hold. The cells
/// are numbered row by row: cell `k` is `(k / 4 - 2, k % 4 - 2)`.
pub open spec fn is_field_cell(k: int, cell: Option<Sphere>) -> bool {
    exists|d: SphereDraw|
        is_sphere_draw(d) && cell == #[trigger] field_sphere_of((k / 4 - 2) as i32, (k % 4 - 2) as i32, d)
}

/// Whether `cells` is a field: four by four cells, each as it may be.
pub open spec fn is_field(cells: Seq<Option<Sphere>>) -> bool {
    cells.len() == 16 && forall|k: int| 0 <= k < 16 ==> is_field_cell(k, #[trigger] cells[k])
}

impl SphereDraw {
    /// Draws the random numbers for one sphere of the field.
    pub fn random() -> (d: SphereDraw)
        ensures
            is_sphere_draw(d),
    {
        let choice: i64 = random_unit();
        let dx: i64 = random_unit();
        let dz: i64 = random_unit();
        let first: Vec3 = Vec3::random_vec();
        let second: Vec3 = Vec3::random_vec();
        SphereDraw { choice, dx, dz, first, second }
    }
}

/// The sphere in cell `(a, b)` of the field, if there is one, given the
/// random numbers `d`.
pub fn field_sphere(a: i32, b: i32, d: SphereDraw) -> (cell: Option<Sphere>)
    ensures
        cell == field_sphere_of(a, b, d),
{
    let center: Vec3 = Vec3::new(
        fx_add(fx_whole(a), fx_mul(1_500_000_000, d.dx)),
        FIELD_RADIUS,
        fx_add(fx_whole(b), fx_mul(1_500_000_000, d.dz)),
    );
    if center.sub(Vec3::new(4_000_000_000, FIELD_RADIUS, -1_000_000_000)).norm_squared()
        > 900_000_000 {
        let material: Material = if d.choice < 700_000_000 {
            Material::Lambertian { albedo: d.first.mul(d.second) }
        } else if d.choice < 850_000_000 {
            Material::Metal { albedo: d.first.offset(ONE).div(2_000_000_000), fuzz: 0 }
        } else {
            Material::Dielectric { refraction_index: 1_500_000_000 }
        };
        Some(Sphere::new(center, FIELD_RADIUS, material))
    } else {
        None
    }
}

/// Adds a field of up to sixteen small spheres at random places and of
/// random materials to `world`.
pub fn generate_random_spheres(world: &mut HittableList)
    ensures
        exists|cells: Seq<Option<Sphere>>|
            is_field(cells) && final(world)@ == old(world)@ + #[trigger] placed(cells),
{
    let ghost mut cells: Seq<Option<Sphere>> = Seq::empty();
    let mut k: i32 = 0;
    while k < 16
        invariant
            0 <= k <= 16,
            cells.len() == k,
            forall|n: int| 0 <= n < k ==> is_field_cell(n, #[trigger] cells[n]),
            world@ == old(world)@ + placed(cells),
        decreases 16 - k,
    {
        let d: SphereDraw = SphereDraw::random();
        let cell: Option<Sphere> = field_sphere(k / 4 - 2, k % 4 - 2, d);
        let ghost before = world@;
        match cell {
            Some(s) => {
                world.add(Primitive::Sphere(s));
            },
            None => {},
        }
        proof {
            let next = cells.push(cell);
            assert(next.drop_last() == cells);
            assert(is_field_cell(k as int, cell));
            assert(world@ =~= old(world)@ + placed(next));
            cells = next;
        }
        k += 1;
    }
}

/// The fixed spheres of the first scene: the ground, a light, a diffuse
/// sphere on the left, and a glass sphere with a hollow core on the right.
pub open spec fn landmarks() -> Seq<Primitive> {
    seq![
        Primitive::Sphere(
            Sphere {
                center: Vec3 { x: 0, y: (-1_000_000_000_000) as i64, z: 0 },
                radius: 1_000_000_000_000,
                material: Material::Lambertian {
                    albedo: Vec3 { x: 500_000_000, y: 500_000_000, z: 500_000_000 },
                },
            },
        ),
        Primitive::Sphere(
            Sphere {
                center: Vec3 { x: 0, y: 2_000_000_000, z: 0 },
                radius: ONE,
                material: Material::LightSource {
                    intensity: Vec3 { x: 5_000_000_000, y: 5_000_000_000, z: 5_000_000_000 },
                },
            },
        ),
        Primitive::Sphere(
            Sphere {
                center: Vec3 { x: (-4_000_000_000) as i64, y: ONE, z: 0 },
                radius: ONE,
                material: Material::Lambertian {
                    albedo: Vec3 { x: 400_000_000, y: 200_000_000, z: 500_000_000 },
                },
            },
        ),
        Primitive::Sphere(
            Sphere {
                center: Vec3 { x: 4_000_000_000, y: ONE, z: 0 },
                radius: ONE,
                material: Material::Dielectric { refraction_index: 1_500_000_000 },
            },
        ),
        Primitive::Sphere(
            Sphere {
                center: Vec3 { x: 4_000_000_000, y: ONE, z: 0 },
                radius: 800_000_000,
                material: Material::Dielectric { refraction_index: 666_666_666 },
            },
        ),
    ]
}

/// Adds the first scene to `world`: a random field of small spheres, then
/// the fixed spheres.
pub fn scene_1(world: &mut HittableList)
    ensures
        exists|cells: Seq<Option<Sphere>>|
            is_field(cells) && final(world)@ == old(world)@ + #[trigger] placed(cells) + landmarks(),
{
    generate_random_spheres(world);
    let ghost field = world@;
    world.add(
        Primitive::Sphere(
            Sphere::new(
                Vec3::new(0, -1_000_000_000_000, 0),
                1_000_000_000_000,
                Material::Lambertian { albedo: Vec3::new(500_000_000, 500_000_000, 500_000_000) },
            ),
        ),
    );
    world.add(
        Primitive::Sphere(
            Sphere::new(
                Vec3::new(0, 2_000_000_000, 0),
                ONE,
                Material::LightSource {
                    intensity: Vec3::new(5_000_000_000, 5_000_000_000, 5_000_000_000),
                },
            ),
        ),
    );
    world.add(
        Primitive::Sphere(
            Sphere::new(
                Vec3::new(-4_000_000_000, ONE, 0),
                ONE,
                Material::Lambertian { albedo: Vec3::new(400_000_000, 200_000_000, 500_000_000) },
            ),
        ),
    );
    world.add(
        Primitive::Sphere(
            Sphere::new(
                Vec3::new(4_000_000_000, ONE, 0),
                ONE,
                Material::Dielectric { refraction_index: 1_500_000_000 },
            ),
        ),
    );
    world.add(
        Primitive::Sphere(
            Sphere::new(
                Vec3::new(4_000_000_000, ONE, 0),
                800_000_000,
                Material::Dielectric { refraction_index: 666_666_666 },
            ),
        ),
    );
    proof {
        let cells = choose|cells: Seq<Option<Sphere>>|
            is_field(cells) && field == old(world)@ + #[trigger] placed(cells);
        assert(world@ =~= old(world)@ + placed(cells) + landmarks());
    }
}

} // verus!
