//! The numbers that the library shares with Vulkan.

use ash::vk;
use render_engine::command::{
    ACCESS_ANY_PRODUCER, ACCESS_COLOR_ATTACHMENT_READ, ACCESS_COLOR_ATTACHMENT_WRITE, ACCESS_NONE,
    ACCESS_SAMPLED_OR_ATTACHED, ACCESS_SHADER_SAMPLED_READ, ACCESS_TRANSFER_READ,
    ACCESS_TRANSFER_WRITE, STAGE_ALL_COMMANDS, STAGE_COLOR_ATTACHMENT_OUTPUT, STAGE_COPY,
    STAGE_FRAGMENT_SHADER, STAGE_TOP_OF_PIPE,
};
use render_engine::error::{
    RenderError, VK_ERROR_FEATURE_NOT_PRESENT, VK_ERROR_INITIALIZATION_FAILED,
    VK_ERROR_OUT_OF_DEVICE_MEMORY,
};
use render_engine::memory::{
    find_memory_type, MEMORY_DEVICE_LOCAL, MEMORY_HOST_VISIBLE_COHERENT,
};

#[test]
fn stages_are_vulkan_stages() {
    assert_eq!(STAGE_TOP_OF_PIPE, vk::PipelineStageFlags2::TOP_OF_PIPE.as_raw());
    assert_eq!(STAGE_FRAGMENT_SHADER, vk::PipelineStageFlags2::FRAGMENT_SHADER.as_raw());
    assert_eq!(
        STAGE_COLOR_ATTACHMENT_OUTPUT,
        vk::PipelineStageFlags2::COLOR_ATTACHMENT_OUTPUT.as_raw()
    );
    assert_eq!(STAGE_ALL_COMMANDS, vk::PipelineStageFlags2::ALL_COMMANDS.as_raw());
    assert_eq!(STAGE_COPY, vk::PipelineStageFlags2::COPY.as_raw());
}

#[test]
fn accesses_are_vulkan_accesses() {
    assert_eq!(ACCESS_NONE, vk::AccessFlags2::NONE.as_raw());
    assert_eq!(
        ACCESS_COLOR_ATTACHMENT_READ,
        vk::AccessFlags2::COLOR_ATTACHMENT_READ.as_raw()
    );
    assert_eq!(
        ACCESS_COLOR_ATTACHMENT_WRITE,
        vk::AccessFlags2::COLOR_ATTACHMENT_WRITE.as_raw()
    );
    assert_eq!(ACCESS_TRANSFER_READ, vk::AccessFlags2::TRANSFER_READ.as_raw());
    assert_eq!(ACCESS_TRANSFER_WRITE, vk::AccessFlags2::TRANSFER_WRITE.as_raw());
    assert_eq!(
        ACCESS_SHADER_SAMPLED_READ,
        vk::AccessFlags2::SHADER_SAMPLED_READ.as_raw()
    );
    let producer = vk::AccessFlags2::SHADER_SAMPLED_READ
        | vk::AccessFlags2::TRANSFER_WRITE
        | vk::AccessFlags2::COLOR_ATTACHMENT_WRITE;
    assert_eq!(ACCESS_ANY_PRODUCER, producer.as_raw());
    let used = vk::AccessFlags2::SHADER_SAMPLED_READ | vk::AccessFlags2::COLOR_ATTACHMENT_WRITE;
    assert_eq!(ACCESS_SAMPLED_OR_ATTACHED, used.as_raw());
}

#[test]
fn results_are_vulkan_results() {
    assert_eq!(
        VK_ERROR_OUT_OF_DEVICE_MEMORY,
        vk::Result::ERROR_OUT_OF_DEVICE_MEMORY.as_raw()
    );
    assert_eq!(
        VK_ERROR_INITIALIZATION_FAILED,
        vk::Result::ERROR_INITIALIZATION_FAILED.as_raw()
    );
    assert_eq!(
        VK_ERROR_FEATURE_NOT_PRESENT,
        vk::Result::ERROR_FEATURE_NOT_PRESENT.as_raw()
    );
}

#[test]
fn memory_properties_are_vulkan_properties() {
    assert_eq!(MEMORY_DEVICE_LOCAL, vk::MemoryPropertyFlags::DEVICE_LOCAL.as_raw());
    let host = vk::MemoryPropertyFlags::HOST_VISIBLE | vk::MemoryPropertyFlags::HOST_COHERENT;
    assert_eq!(MEMORY_HOST_VISIBLE_COHERENT, host.as_raw());
}

#[test]
fn the_first_suitable_memory_type_is_taken() {
    let types = vec![0x1u32, 0x2, 0x6, 0xF];
    assert_eq!(find_memory_type(&types, 0b1111, MEMORY_HOST_VISIBLE_COHERENT), Ok(2));
    assert_eq!(find_memory_type(&types, 0b1011, MEMORY_HOST_VISIBLE_COHERENT), Ok(3));
    assert_eq!(find_memory_type(&types, 0b1111, MEMORY_DEVICE_LOCAL), Ok(0));
    assert_eq!(find_memory_type(&types, 0b1110, MEMORY_DEVICE_LOCAL), Ok(3));
}

#[test]
fn no_suitable_memory_type_is_a_missing_feature() {
    let types = vec![0x1u32, 0x2];
    assert_eq!(
        find_memory_type(&types, 0b11, MEMORY_HOST_VISIBLE_COHERENT),
        Err(RenderError::Vk(VK_ERROR_FEATURE_NOT_PRESENT))
    );
    assert_eq!(
        find_memory_type(&types, 0, MEMORY_DEVICE_LOCAL),
        Err(RenderError::Vk(VK_ERROR_FEATURE_NOT_PRESENT))
    );
    assert_eq!(
        find_memory_type(&Vec::new(), u32::MAX, MEMORY_DEVICE_LOCAL),
        Err(RenderError::Vk(VK_ERROR_FEATURE_NOT_PRESENT))
    );
}
