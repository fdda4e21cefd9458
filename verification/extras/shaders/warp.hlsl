// Wraps the captured frame around a disk: x is the angle, clockwise from the start angle, and y
// the radius, from the outer rim (top row) to the inner hole (bottom row).

cbuffer WarpConstants : register(b0)
{
    float2 output_size;
    float inner_radius;
    float outer_radius;
    float start_angle;
    float angle_span;
    float direction;
    uint supersample;
    float4 background;
};

Texture2D source : register(t0);
SamplerState source_sampler : register(s0);

static const float TWO_PI = 6.28318530718;

// One triangle big enough to cover the whole target.
float4 vs_main(uint id : SV_VertexID) : SV_Position
{
    float2 corner = float2((id << 1) & 2, id & 2);
    return float4(corner * float2(2.0, -2.0) + float2(-1.0, 1.0), 0.0, 1.0);
}

float4 warp(float2 position)
{
    float half_side = 0.5 * min(output_size.x, output_size.y);
    float2 offset = (position - 0.5 * output_size) / half_side;
    float radius = length(offset) / outer_radius;
    if (radius > 1.0 || radius < inner_radius)
    {
        return background;
    }

    // Clockwise from 12 o'clock; y grows downwards.
    float angle = atan2(offset.x, -offset.y);
    float turned = direction * (angle - start_angle);
    turned -= TWO_PI * floor(turned / TWO_PI);
    if (turned > angle_span)
    {
        return background;
    }

    float2 uv = float2(turned / angle_span, (1.0 - radius) / (1.0 - inner_radius));
    return float4(source.SampleLevel(source_sampler, uv, 0.0).rgb, 1.0);
}

float4 ps_main(float4 position : SV_Position) : SV_Target
{
    float4 sum = float4(0.0, 0.0, 0.0, 0.0);
    float2 corner = floor(position.xy);
    for (uint y = 0; y < supersample; ++y)
    {
        for (uint x = 0; x < supersample; ++x)
        {
            sum += warp(corner + (float2(x, y) + 0.5) / supersample);
        }
    }
    return sum / (supersample * supersample);
}
