use pseudo3d::render::shaders::RAYCAST_FRAG;

#[test]
fn raycast_shader_reads_plane_uniform_not_hardcoded_fov() {
    let src = RAYCAST_FRAG;
    assert!(src.contains("u_player_plane"));
    assert!(
        !src.contains("* 0.66"),
        "FOV scale must come from the camera uniform, not a shader literal"
    );
}
