use simple_renderer::ecs::{Application, ArchetypeAccess, ArchetypeStorage, Asset, ComponentAccess, EntityChunkAccess, EntityQueryAccess, Renderer};
use simple_renderer::math::Mat4x4;
use simple_renderer::model::DeviceModel;
use simple_renderer::pipeline::Pipeline;
use simple_renderer::tech::TechniqueContainer;

fn model(tag: usize) -> DeviceModel<f32> {
    let mut m = DeviceModel { meshes: Vec::new(), materials: Vec::new() };
    for _ in 0..tag {
        m.materials.push(simple_renderer::material::DeviceMaterial::empty());
    }
    m
}

fn is_version4(id: u128) -> bool {
    (id >> 76) & 0xF == 4 && (id >> 62) & 0x3 == 2
}

#[test]
fn added_entities_get_random_version4_ids() {
    let mut a: Asset<f32> = Asset::new();
    a.add(model(0), Mat4x4::identity());
    a.add(model(1), Mat4x4::identity());
    assert_eq!(a.ids.len(), 2);
    assert!(a.ids.iter().all(|id| is_version4(*id)));
    assert_ne!(a.ids[0], a.ids[1]);
    assert_eq!(a.models.len(), 2);
    assert_eq!(a.transforms.len(), 2);
}

#[test]
fn removing_moves_the_last_row_into_the_gap() {
    let mut a: Asset<f32> = Asset::new();
    for tag in 0..5 {
        a.add(model(tag), Mat4x4::identity());
    }
    let ids = a.ids.clone();
    a.remove(&[ids[1], ids[3]]);
    // Row 3 goes first (its place taken by row 4), then row 1 (its place taken by row 4).
    assert_eq!(a.ids, vec![ids[0], ids[4], ids[2]]);
    let tags: Vec<usize> = a.models.iter().map(|m| m.materials.len()).collect();
    assert_eq!(tags, vec![0, 4, 2]);
    assert_eq!(a.transforms.len(), 3);
}

#[test]
fn removing_the_entity_just_added_restores_the_archetype() {
    let mut a: Asset<f32> = Asset::new();
    a.add(model(0), Mat4x4::identity());
    a.add(model(1), Mat4x4::identity());
    let before = a.ids.clone();
    a.add(model(2), Mat4x4::identity());
    let new_id = *a.ids.last().unwrap();
    a.remove(&[new_id]);
    assert_eq!(a.ids, before);
    assert_eq!(a.models.len(), 2);
}

#[test]
fn removing_in_any_order_gives_the_same_rows() {
    let mut a: Asset<f32> = Asset::new();
    let mut b: Asset<f32> = Asset::new();
    for tag in 0..4 {
        a.add(model(tag), Mat4x4::identity());
    }
    b.ids = a.ids.clone();
    for tag in 0..4 {
        b.models.push(model(tag));
        b.transforms.push(Mat4x4::identity());
    }
    let ids = a.ids.clone();
    a.remove(&[ids[0], ids[2]]);
    b.remove(&[ids[2], ids[0]]);
    assert_eq!(a.ids, b.ids);
}

#[test]
fn renderer_and_application_archetypes() {
    let mut r: Renderer<f32> = Renderer::new();
    r.add(TechniqueContainer::new(), Pipeline { passes: Vec::new(), skybox_model: model(0), fullsceen_model: model(0) });
    assert_eq!(r.ids.len(), 1);
    let id = r.ids[0];
    r.remove(&[id]);
    assert!(r.ids.is_empty() && r.techniques.is_empty() && r.pipelines.is_empty());

    let mut app: Application<&str, u8, (), f32> = Application::new();
    app.add("window", 1, (), 0.5);
    app.add("second", 2, (), 1.5);
    let first = app.ids[0];
    app.remove(&[first]);
    assert_eq!(app.apps, vec!["second"]);
    assert_eq!(app.inputs, vec![2]);
    assert_eq!(app.cameras, vec![1.5]);
    let (apps, inputs, cameras) = app.get_query();
    assert_eq!((apps.len(), inputs.len(), cameras.len()), (1, 1, 1));
}

#[test]
fn storage_gives_chunks_of_its_archetypes() {
    let mut s: ArchetypeStorage<f32, &str, u8, (), f32> = ArchetypeStorage::new();
    s.assets.add(model(3), Mat4x4::identity());
    let chunks: Vec<(&Vec<DeviceModel<f32>>, &Vec<Mat4x4<f32>>)> = s.get_chunks();
    assert_eq!(chunks.len(), 1);
    assert_eq!(chunks[0].0.len(), 1);
    let models: &Vec<DeviceModel<f32>> = s.assets.get_components();
    assert_eq!(models[0].materials.len(), 3);
    let (m, t) = s.assets.get_query_mut();
    m.clear();
    t.clear();
    assert!(s.assets.models.is_empty());
}

#[test]
fn writable_chunks_and_columns_change_the_storage() {
    let mut s: ArchetypeStorage<f32, &str, u8, (), f32> = ArchetypeStorage::new();
    s.assets.add(model(1), Mat4x4::identity());
    {
        let mut chunks: Vec<(&mut Vec<DeviceModel<f32>>, &mut Vec<Mat4x4<f32>>)> = s.get_chunks_mut();
        assert_eq!(chunks.len(), 1);
        chunks[0].0.push(model(2));
    }
    assert_eq!(s.assets.models.len(), 2);
    assert_eq!(s.assets.ids.len(), 1);
    {
        let transforms: &mut Vec<Mat4x4<f32>> = s.assets.get_components_mut();
        transforms.clear();
    }
    assert!(s.assets.transforms.is_empty());
    assert_eq!(s.assets.models.len(), 2);
    {
        let app: &mut Application<&str, u8, (), f32> = s.get_archetype_mut();
        app.add("window", 1, (), 0.5);
    }
    let app: &Application<&str, u8, (), f32> = s.get_archetype();
    assert_eq!(app.apps, vec!["window"]);
    assert_eq!(s.assets.models.len(), 2);
}
