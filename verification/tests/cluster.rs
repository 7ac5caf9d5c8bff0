use zterm_terminal::grid::{CellAttributes, Cluster, Color, Intensity, SemanticType, UnderlineStyle};
#[test]
fn test_cluster_new() {
    let attrs = CellAttributes::default();
    let cluster = Cluster::new(5, attrs.clone());
    assert_eq!(cluster.width(), 5);
    assert_eq!(cluster.attrs(), &attrs);
}

#[test]
fn test_cluster_width() {
    let cluster = Cluster::new(3, CellAttributes::default());
    assert_eq!(cluster.cell_width, 3);
    assert_eq!(cluster.width(), 3);
}

#[test]
fn test_cluster_attrs_access() {
    let mut attrs = CellAttributes::default();
    attrs.set_bold(true);
    let mut cluster = Cluster::new(1, attrs.clone());

    assert_eq!(cluster.attrs(), &attrs);
    assert!(cluster.attrs().is_bold());

    cluster.attrs_mut().set_italic(true);
    assert!(cluster.attrs().italic());
}

#[test]
fn test_cluster_set_attrs() {
    let mut cluster = Cluster::new(2, CellAttributes::default());

    let mut new_attrs = CellAttributes::default();
    new_attrs.set_foreground(Color::Rgb { r: 255, g: 0, b: 0 });
    cluster.set_attrs(new_attrs.clone());

    assert_eq!(cluster.attrs(), &new_attrs);
}

#[test]
fn test_cluster_add_width() {
    let mut cluster = Cluster::new(3, CellAttributes::default());
    cluster.add_width(2);
    assert_eq!(cluster.width(), 5);

    cluster.add_width(10);
    assert_eq!(cluster.width(), 15);
}

#[test]
fn test_cluster_can_merge_same_attrs() {
    let attrs = CellAttributes::default();
    let cluster1 = Cluster::new(3, attrs.clone());
    let cluster2 = Cluster::new(2, attrs);

    assert!(cluster1.can_merge(&cluster2));
}

#[test]
fn test_cluster_can_merge_different_attrs() {
    let mut attrs1 = CellAttributes::default();
    attrs1.set_bold(true);

    let mut attrs2 = CellAttributes::default();
    attrs2.set_italic(true);

    let cluster1 = Cluster::new(3, attrs1);
    let cluster2 = Cluster::new(2, attrs2);

    assert!(!cluster1.can_merge(&cluster2));
}

#[test]
fn test_cluster_merge_same_attrs() {
    let attrs = CellAttributes::default();
    let mut cluster1 = Cluster::new(3, attrs.clone());
    let cluster2 = Cluster::new(2, attrs);

    cluster1.merge(&cluster2);
    assert_eq!(cluster1.width(), 5);
}

#[test]
fn test_cluster_equality() {
    let attrs = CellAttributes::default();
    let cluster1 = Cluster::new(3, attrs.clone());
    let cluster2 = Cluster::new(3, attrs.clone());
    let cluster3 = Cluster::new(2, attrs);

    assert_eq!(cluster1, cluster2);
    assert_ne!(cluster1, cluster3); // Different width
}

#[test]
fn test_cluster_with_complex_attrs() {
    let mut attrs = CellAttributes::default();
    attrs.set_intensity(Intensity::Bold);
    attrs.set_underline(UnderlineStyle::Curly);
    attrs.set_foreground(Color::Indexed(12));
    attrs.set_background(Color::Rgb {
        r: 30,
        g: 30,
        b: 30,
    });
    attrs.set_semantic_type(SemanticType::Prompt);

    let cluster = Cluster::new(7, attrs.clone());
    assert_eq!(cluster.attrs(), &attrs);
    assert_eq!(cluster.width(), 7);
}

#[test]
fn test_cluster_multiple_merges() {
    let attrs = CellAttributes::default();
    let mut cluster1 = Cluster::new(1, attrs.clone());
    let cluster2 = Cluster::new(2, attrs.clone());
    let cluster3 = Cluster::new(3, attrs);

    cluster1.merge(&cluster2);
    assert_eq!(cluster1.width(), 3);

    cluster1.merge(&cluster3);
    assert_eq!(cluster1.width(), 6);
}

#[test]
fn test_cluster_clone() {
    let mut attrs = CellAttributes::default();
    attrs.set_bold(true);
    let cluster = Cluster::new(5, attrs);

    let cloned = cluster.clone();
    assert_eq!(cluster, cloned);
    assert_eq!(cloned.width(), 5);
    assert!(cloned.attrs().is_bold());
}
