pub mod model;
pub mod text;
pub mod audio_error;
pub mod pcm;
pub mod wasapi_format;
pub mod playback;
pub mod font_query;
pub mod tag_laws;
pub mod uri_handler;
pub mod pulse;
pub mod sorting;
pub mod catalog;
pub mod image_ocr;
pub mod image_load;
pub mod live;
pub mod tts;
pub mod pulse_stub;
pub mod fonts_stub;
pub mod settings;
pub mod document;
pub mod detection;
pub mod languages;
pub mod voices;
pub mod events;
pub mod navigation;
pub mod selection;
pub mod text_map;
pub mod speech_ui;
pub mod fontconfig_query;
pub mod startup;
pub mod dwrite_source;
pub mod wasapi_stream;
