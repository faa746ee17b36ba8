use vstd::prelude::*;

verus! {

/// Vertex stage of the raycast pass: one triangle that covers the screen.
pub const RAYCAST_VERT: &'static str = "#version 330 core
out vec2 v_uv;

void main() {
    vec2 pos = vec2(float((gl_VertexID << 1) & 2), float(gl_VertexID & 2));
    v_uv = pos;
    gl_Position = vec4(pos * 2.0 - 1.0, 0.0, 1.0);
}
";

/// Fragment stage of the raycast pass: a DDA walk through the map texture per
/// screen column, then textured wall, floor and ceiling. The camera plane (and
/// with it the field of view) comes from `u_player_plane`.
pub const RAYCAST_FRAG: &'static str = "#version 330 core
in vec2 v_uv;
out vec4 frag_color;

uniform vec2 u_resolution;
uniform vec2 u_player_pos;
uniform vec2 u_player_dir;
uniform vec2 u_player_plane;
uniform vec2 u_map_size;
uniform vec2 u_view_bob;
uniform sampler2D u_map;
uniform sampler2D u_wall_tex;
uniform sampler2D u_floor_tex;
uniform sampler2D u_ceiling_tex;

bool is_wall(ivec2 cell) {
    if (cell.x < 0 || cell.y < 0 || cell.x >= int(u_map_size.x) || cell.y >= int(u_map_size.y)) {
        return true;
    }
    return texelFetch(u_map, cell, 0).r > 0.5;
}

void main() {
    float screen_x = gl_FragCoord.x;
    float screen_y = u_resolution.y - gl_FragCoord.y;
    float camera_x = 2.0 * screen_x / u_resolution.x - 1.0;
    vec2 side_axis = vec2(-u_player_dir.y, u_player_dir.x);
    vec2 pos = u_player_pos + side_axis * u_view_bob.x;
    vec2 ray = u_player_dir + u_player_plane * camera_x;

    ivec2 cell = ivec2(floor(pos));
    vec2 delta = vec2(
        ray.x == 0.0 ? 1e30 : abs(1.0 / ray.x),
        ray.y == 0.0 ? 1e30 : abs(1.0 / ray.y));
    ivec2 step_dir = ivec2(ray.x < 0.0 ? -1 : 1, ray.y < 0.0 ? -1 : 1);
    vec2 side_dist = vec2(
        ray.x < 0.0 ? (pos.x - float(cell.x)) * delta.x : (float(cell.x) + 1.0 - pos.x) * delta.x,
        ray.y < 0.0 ? (pos.y - float(cell.y)) * delta.y : (float(cell.y) + 1.0 - pos.y) * delta.y);

    int side = 0;
    int max_steps = 2 * int(u_map_size.x + u_map_size.y) + 2;
    for (int i = 0; i < max_steps; ++i) {
        if (side_dist.x < side_dist.y) {
            side_dist.x += delta.x;
            cell.x += step_dir.x;
            side = 0;
        } else {
            side_dist.y += delta.y;
            cell.y += step_dir.y;
            side = 1;
        }
        if (is_wall(cell)) {
            break;
        }
    }
    float perp = side == 0 ? side_dist.x - delta.x : side_dist.y - delta.y;
    perp = max(perp, 1e-4);

    float horizon = 0.5 * u_resolution.y + u_view_bob.y;
    float line_height = u_resolution.y / perp;
    float wall_top = horizon - 0.5 * line_height;
    float wall_bottom = horizon + 0.5 * line_height;

    if (screen_y >= wall_top && screen_y < wall_bottom) {
        float wall_x = side == 0 ? pos.y + perp * ray.y : pos.x + perp * ray.x;
        wall_x -= floor(wall_x);
        float v = (screen_y - wall_top) / line_height;
        vec3 wall = texture(u_wall_tex, vec2(wall_x, v)).rgb;
        if (side == 1) {
            wall = wall * 0.75;
        }
        frag_color = vec4(wall, 1.0);
        return;
    }

    float rel = abs(screen_y - horizon);
    float row_dist = (0.5 * u_resolution.y) / max(rel, 1e-3);
    vec2 world = pos + ray * row_dist;
    vec3 surface = screen_y >= wall_bottom
        ? texture(u_floor_tex, fract(world)).rgb
        : texture(u_ceiling_tex, fract(world)).rgb;
    frag_color = vec4(surface, 1.0);
}
";

/// Vertex stage of the post-process pass: one triangle that covers the screen.
pub const POST_VERT: &'static str = "#version 330 core
out vec2 v_uv;

void main() {
    vec2 pos = vec2(float((gl_VertexID << 1) & 2), float(gl_VertexID & 2));
    v_uv = pos;
    gl_Position = vec4(pos * 2.0 - 1.0, 0.0, 1.0);
}
";

/// Fragment stage of the post-process pass: the classic vignette over the
/// scene texture.
pub const POST_FRAG: &'static str = "#version 330 core
in vec2 v_uv;
out vec4 frag_color;

uniform sampler2D u_scene;
uniform vec2 u_resolution;
uniform int u_vignette_enabled;
uniform float u_vignette_intensity;
uniform float u_vignette_smoothness;
uniform float u_vignette_roundness;
uniform float u_vignette_rounded;

void main() {
    vec2 uv = gl_FragCoord.xy / u_resolution;
    vec3 color = texture(u_scene, uv).rgb;
    if (u_vignette_enabled != 0) {
        vec2 d = abs(uv - vec2(0.5)) * u_vignette_intensity;
        d.x *= mix(1.0, u_resolution.x / u_resolution.y, u_vignette_rounded);
        d = pow(clamp(d, 0.0, 1.0), vec2(u_vignette_roundness));
        float factor = pow(clamp(1.0 - dot(d, d), 0.0, 1.0), u_vignette_smoothness);
        color = color * factor;
    }
    frag_color = vec4(color, 1.0);
}
";

} // verus!
