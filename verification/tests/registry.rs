use kernel::services::erasure::same_type;
use kernel::services::erasure::type_key_of;
use kernel::services::erasure::ServiceObject;
use kernel::services::registry::AIServiceCollection;
use kernel::services::AIService;
use kernel::services::Text;
use std::any::TypeId;

#[derive(Clone, Debug, PartialEq)]
struct ChatService {
    model: String,
}

impl AIService for ChatService {
    fn model_id(&self) -> Option<Text> {
        None
    }

    fn service_id(&self) -> Option<Text> {
        None
    }

    fn get_model_id(&self) -> Option<String> {
        Some(self.model.clone())
    }

    fn get_service_id(&self) -> Option<String> {
        Some(String::from("chat"))
    }
}

#[derive(Clone, Debug, PartialEq)]
struct EmbeddingService {
    dimensions: u32,
}

impl AIService for EmbeddingService {
    fn model_id(&self) -> Option<Text> {
        None
    }

    fn service_id(&self) -> Option<Text> {
        None
    }

    fn get_model_id(&self) -> Option<String> {
        None
    }

    fn get_service_id(&self) -> Option<String> {
        Some(String::from("embedding"))
    }
}

#[derive(Clone, Debug, PartialEq)]
struct AudioService;

impl AIService for AudioService {
    fn model_id(&self) -> Option<Text> {
        None
    }

    fn service_id(&self) -> Option<Text> {
        None
    }

    fn get_model_id(&self) -> Option<String> {
        Some(String::from("whisper"))
    }

    fn get_service_id(&self) -> Option<String> {
        None
    }
}

fn chat(model: &str) -> ChatService {
    ChatService { model: String::from(model) }
}

#[test]
fn new_registry_holds_nothing() {
    let services = AIServiceCollection::new();
    assert_eq!(services.len(), 0);
    assert_eq!(services.get::<ChatService>(), None);
    assert_eq!(services.get_model_id::<ChatService>(), None);
    assert_eq!(services.get_service_id::<ChatService>(), None);
    assert_eq!(services.position(&TypeId::of::<ChatService>()), None);
    assert!(services.entry_at(0).is_none());
}

#[test]
fn get_returns_each_registered_type_and_nothing_for_others() {
    let mut services = AIServiceCollection::new();
    services.insert(chat("gpt"));
    services.insert(EmbeddingService { dimensions: 8 });
    assert_eq!(services.get::<ChatService>(), Some(&chat("gpt")));
    assert_eq!(services.get::<EmbeddingService>(), Some(&EmbeddingService { dimensions: 8 }));
    assert_eq!(services.get::<AudioService>(), None);
    assert_eq!(services.len(), 2);
}

#[test]
fn later_insert_of_a_type_replaces_the_earlier() {
    let mut services = AIServiceCollection::new();
    services.insert(chat("first"));
    services.insert(EmbeddingService { dimensions: 8 });
    services.insert(chat("second"));
    services.insert(EmbeddingService { dimensions: 16 });
    services.insert(chat("third"));
    assert_eq!(services.get::<ChatService>(), Some(&chat("third")));
    assert_eq!(services.get::<EmbeddingService>(), Some(&EmbeddingService { dimensions: 16 }));
    assert_eq!(services.get::<AudioService>(), None);
    assert_eq!(services.len(), 2);
}

#[test]
fn insert_of_one_type_leaves_the_other_types_as_they_were() {
    let mut services = AIServiceCollection::new();
    services.insert(EmbeddingService { dimensions: 8 });
    assert_eq!(services.get::<ChatService>(), None);
    services.insert(chat("gpt"));
    assert_eq!(services.get::<EmbeddingService>(), Some(&EmbeddingService { dimensions: 8 }));
    assert_eq!(services.get::<AudioService>(), None);
    services.insert(AudioService);
    assert_eq!(services.get::<EmbeddingService>(), Some(&EmbeddingService { dimensions: 8 }));
    assert_eq!(services.get::<ChatService>(), Some(&chat("gpt")));
}

#[test]
fn get_model_id_reports_what_the_registered_service_reports() {
    let mut services = AIServiceCollection::new();
    services.insert(chat("gpt"));
    services.insert(EmbeddingService { dimensions: 8 });
    assert_eq!(services.get_model_id::<ChatService>(), Some(String::from("gpt")));
    assert_eq!(services.get_model_id::<EmbeddingService>(), None);
    assert_eq!(services.get_model_id::<AudioService>(), None);
    services.insert(chat("llama"));
    assert_eq!(services.get_model_id::<ChatService>(), Some(String::from("llama")));
}

#[test]
fn get_service_id_reports_what_the_registered_service_reports() {
    let mut services = AIServiceCollection::new();
    services.insert(chat("gpt"));
    services.insert(AudioService);
    assert_eq!(services.get_service_id::<ChatService>(), Some(String::from("chat")));
    assert_eq!(services.get_service_id::<AudioService>(), None);
    assert_eq!(services.get_service_id::<EmbeddingService>(), None);
}

#[test]
fn types_stand_in_the_order_of_their_first_registration() {
    let mut services = AIServiceCollection::new();
    services.insert(chat("gpt"));
    services.insert(EmbeddingService { dimensions: 8 });
    services.insert(AudioService);
    services.insert(chat("llama"));
    assert_eq!(services.len(), 3);
    assert_eq!(services.position(&TypeId::of::<ChatService>()), Some(0));
    assert_eq!(services.position(&TypeId::of::<EmbeddingService>()), Some(1));
    assert_eq!(services.position(&TypeId::of::<AudioService>()), Some(2));
    assert_eq!(services.position(&TypeId::of::<String>()), None);
    let first = services.entry_at(0).unwrap();
    assert_eq!(first.key, TypeId::of::<ChatService>());
    assert_eq!(first.service.downcast_ref::<ChatService>(), Some(&chat("llama")));
    let second = services.entry_at(1).unwrap();
    assert_eq!(second.key, TypeId::of::<EmbeddingService>());
    let third = services.entry_at(2).unwrap();
    assert_eq!(third.key, TypeId::of::<AudioService>());
    assert!(services.entry_at(3).is_none());
}

#[test]
fn type_key_is_the_identity_of_the_type() {
    assert_eq!(type_key_of::<ChatService>(), TypeId::of::<ChatService>());
    assert_eq!(type_key_of::<AudioService>(), TypeId::of::<AudioService>());
    assert_ne!(type_key_of::<ChatService>(), type_key_of::<EmbeddingService>());
}

#[test]
fn same_type_tells_types_apart() {
    assert!(same_type::<ChatService, ChatService>());
    assert!(!same_type::<ChatService, EmbeddingService>());
    assert!(!same_type::<AudioService, ChatService>());
}

#[test]
fn erased_service_gives_back_its_own_type_only() {
    let object = ServiceObject::erase(chat("gpt"));
    assert_eq!(object.downcast_ref::<ChatService>(), Some(&chat("gpt")));
    assert_eq!(object.downcast_ref::<EmbeddingService>(), None);
    assert_eq!(object.downcast_ref::<AudioService>(), None);
}

#[test]
fn erased_service_reports_the_identifiers_of_the_service() {
    let object = ServiceObject::erase(chat("gpt"));
    assert_eq!(object.get_model_id(), Some(String::from("gpt")));
    assert_eq!(object.get_service_id(), Some(String::from("chat")));
    let silent = ServiceObject::erase(EmbeddingService { dimensions: 4 });
    assert_eq!(silent.get_model_id(), None);
    assert_eq!(silent.get_service_id(), Some(String::from("embedding")));
}

#[test]
fn erasing_a_service_registers_nothing() {
    let mut services = AIServiceCollection::new();
    services.insert(chat("gpt"));
    let object = ServiceObject::erase(AudioService);
    assert!(object.downcast_ref::<ServiceObject>().is_none());
    assert_eq!(object.downcast_ref::<AudioService>(), Some(&AudioService));
    assert_eq!(services.get::<AudioService>(), None);
    assert_eq!(services.position(&TypeId::of::<AudioService>()), None);
    assert_eq!(services.len(), 1);
}
