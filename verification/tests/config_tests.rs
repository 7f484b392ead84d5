use open_fair_flow::config::{distribution_note};
use open_fair_flow::config::{
    fewer_clients, fewer_rounds, fl_code_template, get_model_info, larger_batch, more_clients,
    more_rounds, smaller_batch, typed_batch_size, typed_clients, typed_rounds,
};

#[test]
fn model_presets() {
    let cnn = get_model_info("cnn");
    assert_eq!(cnn.name, "CNN (LeNet-style)");
    assert_eq!(cnn.params, "~62 K");
    assert_eq!(cnn.layers.len(), 8);
    assert_eq!(cnn.layers[0], ("Conv2d(1→32, 3×3)", "30×30"));
    let res = get_model_info("resnet");
    assert_eq!(res.name, "ResNet-18 (Mini)");
    assert_eq!(res.layers.len(), 6);
    let mlp = get_model_info("custom");
    assert_eq!(mlp.name, "MLP (Multi-Layer Perceptron)");
    assert_eq!(mlp.params, "~120 K");
    assert_eq!(mlp.layers[4], ("Linear(128→10)", "10"));
}

#[test]
fn settings_steppers() {
    assert_eq!(typed_clients(0), 2);
    assert_eq!(typed_clients(50), 20);
    assert_eq!(typed_clients(7), 7);
    assert_eq!(fewer_clients(2), 2);
    assert_eq!(fewer_clients(3), 2);
    assert_eq!(more_clients(20), 20);
    assert_eq!(more_clients(19), 20);
    assert_eq!(typed_rounds(0), 1);
    assert_eq!(typed_rounds(1000), 100);
    assert_eq!(fewer_rounds(1), 1);
    assert_eq!(more_rounds(100), 100);
    assert_eq!(typed_batch_size(0), 1);
    assert_eq!(typed_batch_size(4096), 512);
    assert_eq!(smaller_batch(32), 16);
    assert_eq!(smaller_batch(8), 8);
    assert_eq!(smaller_batch(9), 4);
    assert_eq!(larger_batch(256), 512);
    assert_eq!(larger_batch(512), 512);
    assert_eq!(larger_batch(300), 600);
}

#[test]
fn generated_training_script() {
    let iid = fl_code_template(3, "iid", 5, "0.01", 32, "mlp");
    assert!(iid.starts_with("# ============================================================\n# Federated Learning with PyTorch — FedAvg Simulation\n"));
    assert!(iid.contains("# Config: 3 clients | 5 rounds | IID | LR=0.01 | Batch=32\n"));
    assert!(iid.contains("client_datasets = partition_data_iid(train_dataset, 3)"));
    assert!(iid.contains("self.fc3 = nn.Linear(128, num_classes)"));
    assert!(iid.contains("print(f\"  DataFrame shape: {df.shape}\")"));
    assert!(!iid.contains("{{"));
    let non = fl_code_template(10, "non_iid", 2, "0.5", 64, "cnn");
    assert!(non.contains("| Non-IID |"));
    assert!(non.contains("client_indices = [[] for _ in range(10)]"));
    assert!(non.contains("self.conv1 = nn.Conv2d(1, 32, 3, 1)"));
    let res = fl_code_template(4, "iid", 1, "1e-3", 8, "resnet");
    assert!(res.contains("class ResBlock(nn.Module):"));
    let custom = fl_code_template(4, "iid", 1, "0.1", 8, "custom");
    assert!(custom.contains("# TODO: Define your layers here"));
}

#[test]
fn distribution_notes() {
    assert_eq!(distribution_note("iid"), "Random equal splits across clients");
    assert_eq!(distribution_note("non_iid"), "Each client gets ~2 classes");
}

#[test]
fn settings_stay_in_range_over_many_changes() {
    let (mut clients, mut rounds, mut batch) = (3u32, 5u32, 32u32);
    for step in 0..200u32 {
        match step % 9 {
            0 => clients = more_clients(clients),
            1 => clients = typed_clients(step * 7),
            2 => clients = fewer_clients(clients),
            3 => rounds = more_rounds(rounds),
            4 => rounds = typed_rounds(step * 3),
            5 => rounds = fewer_rounds(rounds),
            6 => batch = larger_batch(batch),
            7 => batch = typed_batch_size(step * 5),
            _ => batch = smaller_batch(batch),
        }
        assert!((2..=20).contains(&clients));
        assert!((1..=100).contains(&rounds));
        assert!((1..=1022).contains(&batch));
    }
    assert_eq!(larger_batch(typed_batch_size(300)), 600);
    assert_eq!(smaller_batch(8), 8);
}
