use std::str::FromStr;

use erniebot_rs::chat::ChatModel;
use erniebot_rs::embedding::EmbeddingModel;
use erniebot_rs::model;
use erniebot_rs::text2image::{Size, Text2ImageModel};

#[test]
fn test_chat_model_to_string() {
    assert_eq!(ChatModel::ErnieBotTurbo.to_string(), "eb-instant");
    assert_eq!(ChatModel::ErnieBot.to_string(), "completions");
    assert_eq!(ChatModel::Ernie40.to_string(), "completions_pro");
}

#[test]
fn test_chat_model_from_str() {
    assert_eq!(
        ChatModel::from_str("eb-instant").unwrap(),
        ChatModel::ErnieBotTurbo
    );
    assert_eq!(
        ChatModel::from_str("completions").unwrap(),
        ChatModel::ErnieBot
    );
    assert_eq!(
        ChatModel::from_str("completions_pro").unwrap(),
        ChatModel::Ernie40
    );
}

#[test]
fn test_embedding_model_to_string() {
    assert_eq!(EmbeddingModel::EmbeddingV1.to_string(), "embedding-v1");
    assert_eq!(EmbeddingModel::BgeLargeZh.to_string(), "bge_large_zh");
    assert_eq!(EmbeddingModel::BgeLagreEn.to_string(), "bge_large_en");
    assert_eq!(EmbeddingModel::Tao8k.to_string(), "tao_8k");
}

#[test]
fn test_embedding_model_from_str() {
    assert_eq!(
        EmbeddingModel::from_str("embedding-v1").unwrap(),
        EmbeddingModel::EmbeddingV1
    );
    assert_eq!(
        EmbeddingModel::from_str("bge_large_zh").unwrap(),
        EmbeddingModel::BgeLargeZh
    );
    assert_eq!(
        EmbeddingModel::from_str("bge_large_en").unwrap(),
        EmbeddingModel::BgeLagreEn
    );
    assert_eq!(
        EmbeddingModel::from_str("tao_8k").unwrap(),
        EmbeddingModel::Tao8k
    );
}

#[test]
fn test_from_str() {
    assert_eq!(
        model::ChatModel::from_str("eb-instant").unwrap(),
        model::ChatModel::ErnieBotTurbo
    );
    assert_eq!(
        model::ChatModel::from_str("completions").unwrap(),
        model::ChatModel::ErnieBot
    );
    assert_eq!(
        model::ChatModel::from_str("completions_pro").unwrap(),
        model::ChatModel::Ernie40
    );
    assert_eq!(
        model::ChatModel::from_str("custom ChatModel").unwrap(),
        model::ChatModel::Other("custom ChatModel".to_string())
    );
    assert_eq!(
        model::EmbeddingModel::from_str("embedding-v1").unwrap(),
        model::EmbeddingModel::EmbeddingV1
    );
    assert_eq!(
        model::EmbeddingModel::from_str("bge_large_zh").unwrap(),
        model::EmbeddingModel::BgeLargeZh
    );
    assert_eq!(
        model::EmbeddingModel::from_str("bge_large_en").unwrap(),
        model::EmbeddingModel::BgeLagreEn
    );
    assert_eq!(
        model::EmbeddingModel::from_str("tao_8k").unwrap(),
        model::EmbeddingModel::Tao8k
    );
    assert_eq!(
        model::EmbeddingModel::from_str("custom EmbeddingModel").unwrap(),
        model::EmbeddingModel::Other("custom EmbeddingModel".to_string())
    );
}

#[test]
fn test_to_string() {
    assert_eq!(model::ChatModel::ErnieBotTurbo.to_string(), "eb-instant");
    assert_eq!(model::ChatModel::ErnieBot.to_string(), "completions");
    assert_eq!(model::ChatModel::Ernie40.to_string(), "completions_pro");
    assert_eq!(
        model::ChatModel::Other("custom ChatModel".to_string()).to_string(),
        "custom ChatModel"
    );
    assert_eq!(
        model::EmbeddingModel::EmbeddingV1.to_string(),
        "embedding-v1"
    );
    assert_eq!(
        model::EmbeddingModel::BgeLargeZh.to_string(),
        "bge_large_zh"
    );
    assert_eq!(
        model::EmbeddingModel::BgeLagreEn.to_string(),
        "bge_large_en"
    );
    assert_eq!(model::EmbeddingModel::Tao8k.to_string(), "tao_8k");
    assert_eq!(
        model::EmbeddingModel::Other("custom EmbeddingModel".to_string()).to_string(),
        "custom EmbeddingModel"
    );
}

#[test]
fn test_text2image_model_to_string() {
    assert_eq!(Text2ImageModel::StableDiffusionXL.to_string(), "sd_xl");
}

#[test]
fn test_text2image_model_from_str() {
    assert_eq!(
        Text2ImageModel::from_str("sd_xl").unwrap(),
        Text2ImageModel::StableDiffusionXL
    );
}

#[test]
fn test_size() {
    let size = Size::S1024x1024;
    assert_eq!(size.to_string(), "1024x1024");
}
